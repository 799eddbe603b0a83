//! Rivers: from high ground down the field of heights until they meet
//! water.

use vstd::prelude::*;
use crate::world::tile::{Tile, TileType};
use crate::world_generator::spawning_tools::grid::{
    inside, marks_kept, same_filling, some_wanted, square, wanted_at, water_kept, Land, Wanted,
};
use crate::world_generator::spawning_tools::matrix_spawn::HeightMap;
use crate::world_generator::spawning_tools::measure::{
    count_at, count_where, lemma_count_at, lemma_count_drops, lemma_count_shrinks,
};

verus! {

/// A cell that a river has carved and the neighbours it may still flow to:
/// north, east, south and west of it.
#[derive(Clone, Copy, Debug)]
pub struct RiverFrame {
    pub row: usize,
    pub col: usize,
    pub north: bool,
    pub east: bool,
    pub south: bool,
    pub west: bool,
}

/// What a river finds when it enters a cell.
#[derive(Clone, Copy, Debug)]
pub enum Entered {
    /// No neighbour to flow to: the river fails here.
    Blocked,
    /// Water: the river has arrived.
    Arrived,
    /// Land, which is carved; the river flows on from it.
    Carved(RiverFrame),
}

/// The ground that a river flows over: the heights that lead it, the marks
/// on the cells that are taken, the tiles, and the side of the grid.
pub struct Ground {
    pub heights: Vec<Vec<i64>>,
    pub claimed: Vec<Vec<bool>>,
    pub map: Vec<Vec<Tile>>,
    pub size: int,
}

/// A river may flow to the cell at `(r, c)`: it lies on the grid, no river
/// or street has taken it, and it is not lava.
pub open spec fn open_to_river(
    claimed: Vec<Vec<bool>>,
    map: Vec<Vec<Tile>>,
    size: int,
    r: int,
    c: int,
) -> bool {
    inside(size, r, c) && !claimed[r][c] && map[r][c].tile_type != TileType::Lava
}

/// A river may flow from the cell at `(r, c)` to one of its four
/// neighbours.
pub open spec fn has_outlet(
    claimed: Vec<Vec<bool>>,
    map: Vec<Vec<Tile>>,
    size: int,
    r: int,
    c: int,
) -> bool {
    ||| open_to_river(claimed, map, size, r - 1, c)
    ||| open_to_river(claimed, map, size, r, c + 1)
    ||| open_to_river(claimed, map, size, r + 1, c)
    ||| open_to_river(claimed, map, size, r, c - 1)
}

/// `now` is the tile `before` with its terrain carved into shallow water.
pub open spec fn carved(before: Tile, now: Tile) -> bool {
    &&& !before.tile_type.is_water_spec()
    &&& now.tile_type == TileType::ShallowWater
    &&& now.content == before.content
    &&& now.elevation == before.elevation
}

/// Between `before` and `now` a river has done nothing but carve cells:
/// each cell is as it was or carved, each carved cell is taken, and a cell
/// that was not taken before and is now has been carved.
pub open spec fn river_trace(
    claimed_before: Vec<Vec<bool>>,
    before: Vec<Vec<Tile>>,
    claimed_now: Vec<Vec<bool>>,
    now: Vec<Vec<Tile>>,
    size: int,
) -> bool {
    &&& square(before, size)
    &&& square(now, size)
    &&& square(claimed_before, size)
    &&& square(claimed_now, size)
    &&& marks_kept(claimed_before, claimed_now)
    &&& forall|r: int, c: int|
        inside(size, r, c) ==> {
            ||| (#[trigger] now[r][c]) == before[r][c] && claimed_now[r][c] == claimed_before[r][c]
            ||| carved(before[r][c], now[r][c]) && claimed_now[r][c]
        }
}

/// The tiles that are not water.
pub open spec fn dry() -> spec_fn(Tile) -> bool {
    |t: Tile| !t.tile_type.is_water_spec()
}

impl RiverFrame {
    /// How many neighbours the river may still flow to.
    pub open spec fn weight(self) -> nat {
        let n: nat = if self.north {
            1
        } else {
            0
        };
        let e: nat = if self.east {
            1
        } else {
            0
        };
        let s: nat = if self.south {
            1
        } else {
            0
        };
        let w: nat = if self.west {
            1
        } else {
            0
        };
        n + e + s + w
    }
}

impl RiverFrame {
    /// The river may still flow to the neighbour numbered `way`: 0 north,
    /// 1 east, 2 south, 3 west.
    pub open spec fn open_toward(self, way: int) -> bool {
        if way == 0 {
            self.north
        } else if way == 1 {
            self.east
        } else if way == 2 {
            self.south
        } else if way == 3 {
            self.west
        } else {
            false
        }
    }

    /// The height of the neighbour numbered `way`.
    pub open spec fn height_toward(self, heights: Vec<Vec<i64>>, way: int) -> int {
        if way == 0 {
            heights[self.row - 1][self.col as int] as int
        } else if way == 1 {
            heights[self.row as int][self.col + 1] as int
        } else if way == 2 {
            heights[self.row + 1][self.col as int] as int
        } else {
            heights[self.row as int][self.col - 1] as int
        }
    }

    /// The neighbour numbered `way` is the one the river tries next: it is
    /// open, no open one is lower, and no open one before it is as low.
    pub open spec fn lowest_toward(self, heights: Vec<Vec<i64>>, way: int) -> bool {
        &&& self.open_toward(way)
        &&& forall|other: int|
            0 <= other < 4 && #[trigger] self.open_toward(other) ==> {
                ||| self.height_toward(heights, way) < self.height_toward(heights, other)
                ||| self.height_toward(heights, way) == self.height_toward(heights, other) && way
                    <= other
            }
    }
}

impl RiverFrame {
    /// The cell of the frame.
    pub open spec fn at(self) -> (int, int) {
        (self.row as int, self.col as int)
    }

    /// The frame once the river has tried the neighbour numbered `way`.
    pub open spec fn without(self, way: int) -> RiverFrame {
        RiverFrame {
            row: self.row,
            col: self.col,
            north: self.north && way != 0,
            east: self.east && way != 1,
            south: self.south && way != 2,
            west: self.west && way != 3,
        }
    }

    /// The number of the neighbour that the river tries next, if any is
    /// left.
    pub open spec fn next_way(self, heights: Vec<Vec<i64>>) -> Option<int> {
        if self.lowest_toward(heights, 0) {
            Some(0)
        } else if self.lowest_toward(heights, 1) {
            Some(1)
        } else if self.lowest_toward(heights, 2) {
            Some(2)
        } else if self.lowest_toward(heights, 3) {
            Some(3)
        } else {
            None
        }
    }
}

/// The neighbour of the cell `p` numbered `way`: 0 north, 1 east, 2 south,
/// 3 west.
pub open spec fn toward(p: (int, int), way: int) -> (int, int) {
    if way == 0 {
        (p.0 - 1, p.1)
    } else if way == 1 {
        (p.0, p.1 + 1)
    } else if way == 2 {
        (p.0 + 1, p.1)
    } else {
        (p.0, p.1 - 1)
    }
}

/// The river may still flow to the cell `p` once it has carved the cells
/// `carved`.
pub open spec fn still_open(
    claimed: Vec<Vec<bool>>,
    map: Vec<Vec<Tile>>,
    size: int,
    carved: Set<(int, int)>,
    p: (int, int),
) -> bool {
    open_to_river(claimed, map, size, p.0, p.1) && !carved.contains(p)
}

/// The cell `p` is water once the river has carved the cells `carved`.
pub open spec fn wet(map: Vec<Vec<Tile>>, carved: Set<(int, int)>, p: (int, int)) -> bool {
    carved.contains(p) || map[p.0][p.1].tile_type.is_water_spec()
}

/// The frame of the cell `p` as the river comes to it: the neighbours it
/// may flow to.
pub open spec fn frame_at(
    claimed: Vec<Vec<bool>>,
    map: Vec<Vec<Tile>>,
    size: int,
    carved: Set<(int, int)>,
    p: (int, int),
) -> RiverFrame {
    RiverFrame {
        row: p.0 as usize,
        col: p.1 as usize,
        north: still_open(claimed, map, size, carved, toward(p, 0)),
        east: still_open(claimed, map, size, carved, toward(p, 1)),
        south: still_open(claimed, map, size, carved, toward(p, 2)),
        west: still_open(claimed, map, size, carved, toward(p, 3)),
    }
}

/// The land that the river has not carved.
pub open spec fn uncarved(map: Vec<Vec<Tile>>, carved: Set<(int, int)>) -> spec_fn(int, int) -> bool {
    |r: int, c: int| !map[r][c].tile_type.is_water_spec() && !carved.contains((r, c))
}

/// The more cells a river has carved, the less land is left uncarved; and
/// less is left once it has carved the cell `p` of land.
pub proof fn lemma_uncarved_shrinks(
    map: Vec<Vec<Tile>>,
    size: int,
    fewer: Set<(int, int)>,
    more: Set<(int, int)>,
    p: (int, int),
)
    requires
        0 <= size,
        fewer.subset_of(more),
    ensures
        count_at(size, uncarved(map, more)) <= count_at(size, uncarved(map, fewer)),
        inside(size, p.0, p.1) && !map[p.0][p.1].tile_type.is_water_spec() && more.contains(p)
            && !fewer.contains(p) ==> count_at(size, uncarved(map, more)) < count_at(
            size,
            uncarved(map, fewer),
        ),
{
    assert forall|i: int, j: int|
        inside(size, i, j) && #[trigger] uncarved(map, more)(i, j) implies uncarved(map, fewer)(
        i,
        j,
    ) by {}
    if inside(size, p.0, p.1) && !map[p.0][p.1].tile_type.is_water_spec() && more.contains(p)
        && !fewer.contains(p) {
        assert(uncarved(map, fewer)(p.0, p.1));
        assert(!uncarved(map, more)(p.0, p.1));
    }
    lemma_count_at(size, uncarved(map, more), uncarved(map, fewer), p.0, p.1);
}

/// How a river flows over a grid on which it has carved the cells `carved`:
/// whether it arrives at water, and the cells it has carved by then.
///
/// Without a frame, the river comes to the cell `p`: it fails where no
/// neighbour is open to it, has arrived where the cell is water, and else
/// carves the cell and flows on from its frame. With a frame, it tries the
/// neighbour that `next_way` names; it has arrived if it arrives from
/// there, else it flows on from the frame without that neighbour, and
/// fails once no neighbour is left.
#[verifier::opaque]
pub open spec fn river_flow(
    ground: Ground,
    carved: Set<(int, int)>,
    frame: Option<RiverFrame>,
    p: (int, int),
) -> (bool, Set<(int, int)>)
    decreases
            count_at(ground.size, uncarved(ground.map, carved)),
            (match frame {
                Some(f) => f.weight() + 1,
                None => 0,
            }),
{
    if ground.size <= 0 {
        (false, carved)
    } else {
    match frame {
        None => {
            let f = frame_at(ground.claimed, ground.map, ground.size, carved, p);
            if !inside(ground.size, p.0, p.1) || f.weight() == 0 {
                (false, carved)
            } else if wet(ground.map, carved, p) {
                (true, carved)
            } else {
                proof {
                    lemma_uncarved_shrinks(ground.map, ground.size, carved, carved.insert(p), p);
                }
                river_flow(ground, carved.insert(p), Some(f), p)
            }
        },
        Some(f) => match f.next_way(ground.heights) {
            None => (false, carved),
            Some(way) => {
                let first = river_flow(ground, carved, None, toward(f.at(), way));
                if first.0 {
                    first
                } else {
                    proof {
                        lemma_uncarved_shrinks(ground.map, ground.size, carved, first.1.union(carved), p);
                    }
                    river_flow(ground, first.1.union(carved), Some(f.without(way)), p)
                }
            },
        },
    }
    }
}

/// How a river flows on from a stack of frames: from the last one, and on
/// failing there from the one before, down to the first.
#[verifier::opaque]
pub open spec fn river_resume(
    ground: Ground,
    carved: Set<(int, int)>,
    stack: Seq<RiverFrame>,
) -> (bool, Set<(int, int)>)
    decreases stack.len(),
{
    if stack.len() == 0 {
        (false, carved)
    } else {
        let top = river_flow(ground, carved, Some(stack.last()), stack.last().at());
        if top.0 {
            top
        } else {
            river_resume(ground, top.1.union(carved), stack.drop_last())
        }
    }
}

/// A river never gives back a cell that it has carved.
pub proof fn lemma_flow_grows(
    ground: Ground,
    carved: Set<(int, int)>,
    frame: Option<RiverFrame>,
    p: (int, int),
)
    ensures
        carved.subset_of(river_flow(ground, carved, frame, p).1),
        river_flow(ground, carved, frame, p).1.union(carved) == river_flow(
            ground,
            carved,
            frame,
            p,
        ).1,
    decreases
            count_at(ground.size, uncarved(ground.map, carved)),
            (match frame {
                Some(f) => f.weight() + 1,
                None => 0,
            }),
{
    reveal(river_flow);
    reveal(river_resume);
    let result = river_flow(ground, carved, frame, p);
    if ground.size > 0 {
    match frame {
        None => {
            let f = frame_at(ground.claimed, ground.map, ground.size, carved, p);
            if !inside(ground.size, p.0, p.1) || f.weight() == 0 {
            } else if wet(ground.map, carved, p) {
            } else {
                lemma_uncarved_shrinks(ground.map, ground.size, carved, carved.insert(p), p);
                lemma_flow_grows(ground, carved.insert(p), Some(f), p);
            }
        },
        Some(f) => match f.next_way(ground.heights) {
            None => {},
            Some(way) => {
                lemma_flow_grows(ground, carved, None, toward(f.at(), way));
                let first = river_flow(ground, carved, None, toward(f.at(), way));
                if !first.0 {
                    lemma_uncarved_shrinks(ground.map, ground.size, carved, first.1.union(carved), p);
                    lemma_flow_grows(ground, first.1.union(carved), Some(f.without(way)), p);
                }
            },
        },
    }
    }
    assert(result.1.union(carved) =~= result.1);
}

/// The grid and the marks once the river has carved the cells `carved`:
/// each of them is taken and is shallow water, and every other cell is as
/// it was.
pub open spec fn river_carved(
    claimed_before: Vec<Vec<bool>>,
    before: Vec<Vec<Tile>>,
    claimed_now: Vec<Vec<bool>>,
    now: Vec<Vec<Tile>>,
    size: int,
    carved: Set<(int, int)>,
) -> bool {
    &&& forall|p: (int, int)|
        #[trigger] carved.contains(p) ==> inside(size, p.0, p.1)
            && !before[p.0][p.1].tile_type.is_water_spec()
    &&& forall|r: int, c: int|
        inside(size, r, c) ==> {
            &&& claimed_now[r][c] == (claimed_before[r][c] || carved.contains((r, c)))
            &&& (#[trigger] now[r][c]) == (if carved.contains((r, c)) {
                Tile {
                    tile_type: TileType::ShallowWater,
                    content: before[r][c].content,
                    elevation: before[r][c].elevation,
                }
            } else {
                before[r][c]
            })
        }
}

/// The weight of the last frame of a stack, and 0 for an empty one.
pub open spec fn top_weight(stack: Seq<RiverFrame>) -> nat {
    if stack.len() == 0 {
        0
    } else {
        stack.last().weight()
    }
}

impl HeightMap {
    /// The ground that the field and the grid `map` make for a river.
    pub open spec fn ground(self, map: Vec<Vec<Tile>>) -> Ground {
        Ground { heights: self.heights, claimed: self.claimed, map, size: self.size as int }
    }

    fn river_may_enter(&self, map: &Vec<Vec<Tile>>, row: usize, col: usize) -> (ok: bool)
        requires
            self.wf(),
            square(*map, self.size as int),
            row < self.size,
            col < self.size,
        ensures
            ok == open_to_river(self.claimed, *map, self.size as int, row as int, col as int),
    {
        !self.claimed[row][col] && map[row][col].tile_type != TileType::Lava
    }

    /// What a river finds at the cell at `(row, col)`, and the cell carved
    /// where it is land with a neighbour to flow to.
    pub fn river_enter(&mut self, map: &mut Vec<Vec<Tile>>, row: usize, col: usize) -> (e: Entered)
        requires
            old(self).wf(),
            square(*old(map), old(self).size as int),
            row < old(self).size,
            col < old(self).size,
        ensures
            final(self).wf(),
            final(self).heights == old(self).heights,
            final(self).min == old(self).min,
            final(self).max == old(self).max,
            final(self).size == old(self).size,
            final(self).seed == old(self).seed,
            final(self).with_info == old(self).with_info,
            river_trace(
                old(self).claimed,
                *old(map),
                final(self).claimed,
                *final(map),
                old(self).size as int,
            ),
            e is Blocked <==> !has_outlet(
                old(self).claimed,
                *old(map),
                old(self).size as int,
                row as int,
                col as int,
            ),
            e is Arrived <==> has_outlet(
                old(self).claimed,
                *old(map),
                old(self).size as int,
                row as int,
                col as int,
            ) && old(map)[row as int][col as int].tile_type.is_water_spec(),
            !(e is Carved) ==> *final(map) == *old(map) && final(self).claimed == old(self).claimed,
            e matches Entered::Carved(f) ==> {
                &&& f.row == row && f.col == col
                &&& f.north == open_to_river(
                    old(self).claimed,
                    *old(map),
                    old(self).size as int,
                    row - 1,
                    col as int,
                )
                &&& f.east == open_to_river(
                    old(self).claimed,
                    *old(map),
                    old(self).size as int,
                    row as int,
                    col + 1,
                )
                &&& f.south == open_to_river(
                    old(self).claimed,
                    *old(map),
                    old(self).size as int,
                    row + 1,
                    col as int,
                )
                &&& f.west == open_to_river(
                    old(self).claimed,
                    *old(map),
                    old(self).size as int,
                    row as int,
                    col - 1,
                )
                &&& carved(old(map)[row as int][col as int], final(map)[row as int][col as int])
                &&& final(self).claimed[row as int][col as int]
                &&& forall|r: int, c: int|
                    inside(old(self).size as int, r, c) && !(r == row && c == col) ==> (
                    #[trigger] final(map)[r][c]) == old(map)[r][c] && final(self).claimed[r][c]
                        == old(self).claimed[r][c]
            },
    {
        let size: usize = self.size;
        let north = row >= 1 && self.river_may_enter(map, row - 1, col);
        let east = col + 1 < size && self.river_may_enter(map, row, col + 1);
        let south = row + 1 < size && self.river_may_enter(map, row + 1, col);
        let west = col >= 1 && self.river_may_enter(map, row, col - 1);
        if !north && !east && !south && !west {
            return Entered::Blocked;
        }
        if map[row][col].tile_type.is_water() {
            return Entered::Arrived;
        }
        self.claimed[row][col] = true;
        map[row][col].tile_type = TileType::ShallowWater;
        proof {
            old(self).lemma_marks_keep_wf(*self);
        }
        Entered::Carved(RiverFrame { row, col, north, east, south, west })
    }

    /// The neighbour that the river tries next from a frame: of those it
    /// may still flow to, the lowest, and of equally low ones the first
    /// among north, east, south and west. `None` when none is left.
    pub fn river_next(&self, frame: &RiverFrame) -> (k: Option<u8>)
        requires
            self.wf(),
            frame.row < self.size,
            frame.col < self.size,
            frame.north ==> frame.row >= 1,
            frame.east ==> frame.col + 1 < self.size,
            frame.south ==> frame.row + 1 < self.size,
            frame.west ==> frame.col >= 1,
        ensures
            k is None <==> frame.weight() == 0,
            k matches Some(d) ==> d < 4 && frame.lowest_toward(self.heights, d as int),
    {
        let mut best: Option<u8> = None;
        let mut lowest: i64 = 0;
        if frame.north {
            best = Some(0);
            lowest = self.heights[frame.row - 1][frame.col];
        }
        if frame.east {
            let h: i64 = self.heights[frame.row][frame.col + 1];
            if best.is_none() || h < lowest {
                best = Some(1);
                lowest = h;
            }
        }
        if frame.south {
            let h: i64 = self.heights[frame.row + 1][frame.col];
            if best.is_none() || h < lowest {
                best = Some(2);
                lowest = h;
            }
        }
        if frame.west {
            let h: i64 = self.heights[frame.row][frame.col - 1];
            if best.is_none() || h < lowest {
                best = Some(3);
                lowest = h;
            }
        }
        best
    }

    /// Carves a river from the cell at `(row, col)`. At each cell the river
    /// fails if no neighbour is open to it, has arrived if the cell is
    /// water, and else carves the cell into shallow water, takes it, and
    /// flows on to the neighbours that were open when it came, lowest
    /// first, until one of them leads to water. What it carved stays.
    ///
    /// Returns whether the river has arrived at water. The cells carved
    /// are those that `river_flow` gives.
    #[verifier::rlimit(50)]
    pub fn river_spawn(&mut self, map: &mut Vec<Vec<Tile>>, row: usize, col: usize) -> (arrived:
        bool)
        requires
            old(self).wf(),
            square(*old(map), old(self).size as int),
            row < old(self).size,
            col < old(self).size,
        ensures
            final(self).wf(),
            final(self).heights == old(self).heights,
            final(self).min == old(self).min,
            final(self).max == old(self).max,
            final(self).size == old(self).size,
            final(self).seed == old(self).seed,
            final(self).with_info == old(self).with_info,
            arrived == river_flow(
                old(self).ground(*old(map)),
                Set::empty(),
                None,
                (row as int, col as int),
            ).0,
            river_carved(
                old(self).claimed,
                *old(map),
                final(self).claimed,
                *final(map),
                old(self).size as int,
                river_flow(
                old(self).ground(*old(map)),
                    Set::empty(),
                    None,
                    (row as int, col as int),
                ).1,
            ),
            river_trace(
                old(self).claimed,
                *old(map),
                final(self).claimed,
                *final(map),
                old(self).size as int,
            ),
    {
        let size: usize = self.size;
        let ghost n = size as int;
        let ghost heights = self.heights;
        let ghost claimed0 = self.claimed;
        let ghost map0 = *map;
        let ghost start = (row as int, col as int);
        let ghost ground = Ground { heights, claimed: claimed0, map: map0, size: n };
        let ghost whole = river_flow(ground, Set::empty(), None, start);
        let ghost mut carved: Set<(int, int)> = Set::empty();
        let mut stack: Vec<RiverFrame> = Vec::new();
        proof {
            lemma_state_matches(claimed0, map0, self.claimed, *map, n, carved, start);
        }
        match self.river_enter(map, row, col) {
            Entered::Blocked => {
                proof {
                    lemma_flow_blocked(ground, carved, start);
                    lemma_carved_is_trace(claimed0, map0, self.claimed, *map, n, carved);
                }
                return false;
            },
            Entered::Arrived => {
                proof {
                    lemma_flow_arrived(ground, carved, start);
                    lemma_carved_is_trace(claimed0, map0, self.claimed, *map, n, carved);
                }
                return true;
            },
            Entered::Carved(frame) => {
                proof {
                    lemma_carve_one(
                        claimed0,
                        map0,
                        claimed0,
                        map0,
                        self.claimed,
                        *map,
                        n,
                        carved,
                        start,
                    );
                    lemma_resume_first(ground, frame, start);
                    carved = carved.insert(start);
                }
                stack.push(frame);
                assert(stack@ =~= seq![frame]);
            },
        }
        loop
            invariant
                self.wf(),
                size == self.size == old(self).size,
                n == size,
                self.heights == old(self).heights,
                heights == self.heights,
                self.min == old(self).min,
                self.max == old(self).max,
                self.seed == old(self).seed,
                self.with_info == old(self).with_info,
                river_carved(claimed0, map0, self.claimed, *map, n, carved),
                square(map0, n),
                square(claimed0, n),
                square(*map, n),
                claimed0 == old(self).claimed,
                map0 == *old(map),
                start == (row as int, col as int),
                ground == (Ground { heights, claimed: claimed0, map: map0, size: n }),
                whole == river_flow(ground, Set::empty(), None, start),
                whole == river_resume(ground, carved, stack@),
                forall|i: int|
                    0 <= i < stack.len() ==> {
                        &&& (#[trigger] stack[i]).row < size
                        &&& stack[i].col < size
                        &&& stack[i].north ==> stack[i].row >= 1
                        &&& stack[i].east ==> stack[i].col + 1 < size
                        &&& stack[i].south ==> stack[i].row + 1 < size
                        &&& stack[i].west ==> stack[i].col >= 1
                    },
            decreases count_where(*map, n, dry()), stack.len(), top_weight(stack@),
        {
            if stack.len() == 0 {
                proof {
                    assert(stack@ =~= Seq::<RiverFrame>::empty());
                    lemma_resume_empty(ground, carved);
                    lemma_carved_is_trace(claimed0, map0, self.claimed, *map, n, carved);
                }
                return false;
            }
            let top: usize = stack.len() - 1;
            let frame: RiverFrame = stack[top];
            let ghost below = stack@.drop_last();
            assert(stack@ =~= below.push(frame));
            match self.river_next(&frame) {
                None => {
                    proof {
                        lemma_resume_pop(ground, carved, below, frame);
                    }
                    stack.pop();
                    assert(stack@ =~= below);
                },
                Some(d) => {
                    let mut rest: RiverFrame = frame;
                    let mut nr: usize = frame.row;
                    let mut nc: usize = frame.col;
                    if d == 0 {
                        rest.north = false;
                        nr = frame.row - 1;
                    } else if d == 1 {
                        rest.east = false;
                        nc = frame.col + 1;
                    } else if d == 2 {
                        rest.south = false;
                        nr = frame.row + 1;
                    } else {
                        rest.west = false;
                        nc = frame.col - 1;
                    }
                    let ghost next_cell = (nr as int, nc as int);
                    assert(rest == frame.without(d as int));
                    assert(next_cell == toward(frame.at(), d as int));
                    stack.set(top, rest);
                    assert(stack@ =~= below.push(rest));
                    let ghost claimed1 = self.claimed;
                    let ghost map1 = *map;
                    proof {
                        lemma_lowest_is_next(frame, heights, d as int);
                        lemma_state_matches(claimed0, map0, claimed1, map1, n, carved, next_cell);
                    }
                    match self.river_enter(map, nr, nc) {
                        Entered::Blocked => {
                            proof {
                                lemma_resume_blocked(ground, carved, below, frame, d as int);
                            }
                        },
                        Entered::Arrived => {
                            proof {
                                lemma_resume_arrived(ground, carved, below, frame, d as int);
                                lemma_carved_is_trace(
                                    claimed0,
                                    map0,
                                    self.claimed,
                                    *map,
                                    n,
                                    carved,
                                );
                            }
                            return true;
                        },
                        Entered::Carved(next) => {
                            proof {
                                lemma_resume_carved(ground, carved, below, frame, d as int, next);
                                assert forall|r: int, c: int|
                                    inside(n, r, c) && !(r == next_cell.0 && c
                                        == next_cell.1) implies self.claimed[r][c]
                                    == claimed1[r][c] by {
                                    assert(!(r == nr && c == nc));
                                    let t = map[r][c];
                                }
                                lemma_carve_one(
                                    claimed0,
                                    map0,
                                    claimed1,
                                    map1,
                                    self.claimed,
                                    *map,
                                    n,
                                    carved,
                                    next_cell,
                                );
                                assert forall|r: int, c: int|
                                    inside(n, r, c) && dry()(
                                        #[trigger] map[r][c],
                                    ) implies dry()(map1[r][c]) by {}
                                lemma_count_drops(map1, *map, n, dry(), nr as int, nc as int);
                                carved = carved.insert(next_cell);
                            }
                            stack.push(next);
                            assert(stack@ =~= below.push(rest).push(next));
                        },
                    }
                },
            }
        }
    }
}

/// What a river has carved is the trace of a river.
pub proof fn lemma_carved_is_trace(
    claimed_before: Vec<Vec<bool>>,
    before: Vec<Vec<Tile>>,
    claimed_now: Vec<Vec<bool>>,
    now: Vec<Vec<Tile>>,
    size: int,
    carved: Set<(int, int)>,
)
    requires
        square(before, size),
        square(now, size),
        square(claimed_before, size),
        square(claimed_now, size),
        river_carved(claimed_before, before, claimed_now, now, size, carved),
    ensures
        river_trace(claimed_before, before, claimed_now, now, size),
{
    assert forall|r: int, c: int| inside(size, r, c) implies {
        ||| (#[trigger] now[r][c]) == before[r][c] && claimed_now[r][c] == claimed_before[r][c]
        ||| self::carved(before[r][c], now[r][c]) && claimed_now[r][c]
    } by {
        if carved.contains((r, c)) {
        }
    }
    assert forall|r: int, c: int|
        0 <= r < claimed_before.len() && 0 <= c < claimed_before[r].len() && (
        #[trigger] claimed_before[r][c]) implies claimed_now[r][c] by {
        assert(inside(size, r, c));
        let t = now[r][c];
    }
}

/// Once a river has carved one more cell of land, the grid and the marks
/// are those of the cells carved with that cell.
pub proof fn lemma_carve_one(
    claimed0: Vec<Vec<bool>>,
    map0: Vec<Vec<Tile>>,
    claimed1: Vec<Vec<bool>>,
    map1: Vec<Vec<Tile>>,
    claimed2: Vec<Vec<bool>>,
    map2: Vec<Vec<Tile>>,
    size: int,
    carved: Set<(int, int)>,
    cell: (int, int),
)
    requires
        river_carved(claimed0, map0, claimed1, map1, size, carved),
        inside(size, cell.0, cell.1),
        self::carved(map1[cell.0][cell.1], map2[cell.0][cell.1]),
        claimed2[cell.0][cell.1],
        forall|r: int, c: int|
            inside(size, r, c) && !(r == cell.0 && c == cell.1) ==> (#[trigger] map2[r][c])
                == map1[r][c] && claimed2[r][c] == claimed1[r][c],
    ensures
        river_carved(claimed0, map0, claimed2, map2, size, carved.insert(cell)),
        !carved.contains(cell),
{
    let more = carved.insert(cell);
    let t = map1[cell.0][cell.1];
    assert(!carved.contains(cell));
    assert forall|p: (int, int)| #[trigger] more.contains(p) implies inside(size, p.0, p.1)
        && !map0[p.0][p.1].tile_type.is_water_spec() by {
        if p != cell {
            assert(carved.contains(p));
        }
    }
    assert forall|r: int, c: int| inside(size, r, c) implies {
        &&& claimed2[r][c] == (claimed0[r][c] || more.contains((r, c)))
        &&& (#[trigger] map2[r][c]) == (if more.contains((r, c)) {
            Tile {
                tile_type: TileType::ShallowWater,
                content: map0[r][c].content,
                elevation: map0[r][c].elevation,
            }
        } else {
            map0[r][c]
        })
    } by {
        let a = map1[r][c];
        if r == cell.0 && c == cell.1 {
            assert((r, c) == cell);
        } else {
            assert((r, c) != cell);
        }
    }
}

/// A river fails at a cell from which no neighbour is open to it.
pub proof fn lemma_flow_blocked(
    ground: Ground,
    carved: Set<(int, int)>,
    p: (int, int),
)
    requires
        frame_at(ground.claimed, ground.map, ground.size, carved, p).weight() == 0,
    ensures
        river_flow(ground, carved, None, p) == (false, carved),
{
    reveal(river_flow);
}

/// A river has arrived at a cell of water from which a neighbour is open to
/// it.
pub proof fn lemma_flow_arrived(
    ground: Ground,
    carved: Set<(int, int)>,
    p: (int, int),
)
    requires
        0 < ground.size,
        inside(ground.size, p.0, p.1),
        frame_at(ground.claimed, ground.map, ground.size, carved, p).weight() > 0,
        wet(ground.map, carved, p),
    ensures
        river_flow(ground, carved, None, p) == (true, carved),
{
    reveal(river_flow);
}

/// A river with no frame left has failed.
pub proof fn lemma_resume_empty(
    ground: Ground,
    carved: Set<(int, int)>,
)
    ensures
        river_resume(ground, carved, Seq::empty()) == (false, carved),
{
    reveal(river_resume);
}

/// A river that has carved its first cell flows on from the frame of that
/// cell.
pub proof fn lemma_resume_first(
    ground: Ground,
    frame: RiverFrame,
    start: (int, int),
)
    requires
        0 < ground.size <= usize::MAX,
        inside(ground.size, start.0, start.1),
        frame == frame_at(ground.claimed, ground.map, ground.size, Set::empty(), start),
        frame.weight() > 0,
        !wet(ground.map, Set::empty(), start),
    ensures
        river_flow(ground, Set::empty(), None, start) == river_resume(
            ground,
            Set::<(int, int)>::empty().insert(start),
            seq![frame],
        ),
{
    reveal(river_flow);
    reveal(river_resume);
    let carved = Set::<(int, int)>::empty().insert(start);
    let stack = seq![frame];
    assert(stack.last() == frame);
    assert(frame.at() == start);
    assert(stack.drop_last() =~= Seq::<RiverFrame>::empty());
    let top = river_flow(ground, carved, Some(frame), start);
    lemma_flow_grows(ground, carved, Some(frame), start);
    assert(river_flow(ground, Set::empty(), None, start) == top);
    if !top.0 {
        assert(river_resume(ground, top.1.union(carved), stack.drop_last())
            == (false, top.1));
    }
}

/// A river that has no neighbour left to try from its last frame flows on
/// from the frame before.
pub proof fn lemma_resume_pop(
    ground: Ground,
    carved: Set<(int, int)>,
    below: Seq<RiverFrame>,
    frame: RiverFrame,
)
    requires
        0 < ground.size <= usize::MAX,
        frame.weight() == 0,
    ensures
        river_resume(ground, carved, below.push(frame)) == river_resume(ground, carved, below),
{
    reveal(river_flow);
    reveal(river_resume);
    let stack = below.push(frame);
    assert(stack.last() == frame);
    assert(stack.drop_last() =~= below);
    assert(frame.next_way(ground.heights) is None);
    assert(carved.union(carved) =~= carved);
}

/// A river that cannot flow to the neighbour it tries flows on from the
/// same frame without that neighbour.
pub proof fn lemma_resume_blocked(
    ground: Ground,
    carved: Set<(int, int)>,
    below: Seq<RiverFrame>,
    frame: RiverFrame,
    way: int,
)
    requires
        0 < ground.size <= usize::MAX,
        frame.next_way(ground.heights) == Some(way),
        inside(ground.size, toward(frame.at(), way).0, toward(frame.at(), way).1),
        frame_at(ground.claimed, ground.map, ground.size, carved, toward(frame.at(), way)).weight() == 0,
    ensures
        river_resume(ground, carved, below.push(frame)) == river_resume(
            ground,
            carved,
            below.push(frame.without(way)),
        ),
{
    reveal(river_flow);
    reveal(river_resume);
    let stack = below.push(frame);
    let rest = frame.without(way);
    let other = below.push(rest);
    assert(stack.last() == frame && other.last() == rest);
    assert(stack.drop_last() =~= below && other.drop_last() =~= below);
    assert(rest.at() == frame.at());
    assert(carved.union(carved) =~= carved);
    let first = river_flow(ground, carved, None, toward(frame.at(), way));
    assert(first == (false, carved));
}

/// A river that tries a neighbour that is water has arrived.
pub proof fn lemma_resume_arrived(
    ground: Ground,
    carved: Set<(int, int)>,
    below: Seq<RiverFrame>,
    frame: RiverFrame,
    way: int,
)
    requires
        0 < ground.size <= usize::MAX,
        frame.next_way(ground.heights) == Some(way),
        inside(ground.size, toward(frame.at(), way).0, toward(frame.at(), way).1),
        frame_at(ground.claimed, ground.map, ground.size, carved, toward(frame.at(), way)).weight() > 0,
        wet(ground.map, carved, toward(frame.at(), way)),
    ensures
        river_resume(ground, carved, below.push(frame)) == (true, carved),
{
    reveal(river_flow);
    reveal(river_resume);
    let stack = below.push(frame);
    assert(stack.last() == frame);
    let first = river_flow(ground, carved, None, toward(frame.at(), way));
    assert(first == (true, carved));
}

/// A river that carves the neighbour it tries flows on from the frame of
/// that neighbour, and on failing there from the frame it came from,
/// without that neighbour.
pub proof fn lemma_resume_carved(
    ground: Ground,
    carved: Set<(int, int)>,
    below: Seq<RiverFrame>,
    frame: RiverFrame,
    way: int,
    next: RiverFrame,
)
    requires
        0 < ground.size <= usize::MAX,
        frame.next_way(ground.heights) == Some(way),
        inside(ground.size, toward(frame.at(), way).0, toward(frame.at(), way).1),
        next == frame_at(ground.claimed, ground.map, ground.size, carved, toward(frame.at(), way)),
        next.weight() > 0,
        !wet(ground.map, carved, toward(frame.at(), way)),
    ensures
        river_resume(ground, carved, below.push(frame)) == river_resume(
            ground,
            carved.insert(toward(frame.at(), way)),
            below.push(frame.without(way)).push(next),
        ),
{
    reveal(river_flow);
    reveal(river_resume);
    let cell = toward(frame.at(), way);
    let more = carved.insert(cell);
    let rest = frame.without(way);
    let stack = below.push(frame);
    let middle = below.push(rest);
    let other = middle.push(next);
    assert(stack.last() == frame && middle.last() == rest && other.last() == next);
    assert(stack.drop_last() =~= below && middle.drop_last() =~= below && other.drop_last()
        =~= middle);
    assert(rest.at() == frame.at());
    assert(next.at() == cell);
    let first = river_flow(ground, carved, None, cell);
    let inner = river_flow(ground, more, Some(next), cell);
    assert(first == inner);
    lemma_flow_grows(ground, more, Some(next), cell);
    assert(inner.1.union(carved) =~= inner.1);
    assert(inner.1.union(more) =~= inner.1);
    let old_top = river_flow(ground, carved, Some(frame), frame.at());
    if inner.0 {
        assert(old_top == inner);
    } else {
        let onward = river_flow(ground, inner.1, Some(rest), frame.at());
        assert(old_top == onward);
        lemma_flow_grows(ground, inner.1, Some(rest), frame.at());
        assert(onward.1.union(inner.1) =~= onward.1);
        assert(onward.1.union(carved) =~= onward.1);
        assert(river_resume(ground, inner.1, middle) == (if onward.0 {
            onward
        } else {
            river_resume(ground, onward.1, below)
        }));
    }
}

/// The neighbour that is lowest among the open ones is the one that
/// `next_way` names.
pub proof fn lemma_lowest_is_next(frame: RiverFrame, heights: Vec<Vec<i64>>, way: int)
    requires
        0 <= way < 4,
        frame.lowest_toward(heights, way),
    ensures
        frame.next_way(heights) == Some(way),
        frame.without(way).weight() < frame.weight(),
{
    assert(frame.open_toward(way));
    if way != 0 && frame.lowest_toward(heights, 0) {
        assert(frame.open_toward(0));
    }
    if way != 1 && frame.lowest_toward(heights, 1) {
        assert(frame.open_toward(1));
    }
    if way != 2 && frame.lowest_toward(heights, 2) {
        assert(frame.open_toward(2));
    }
    if way != 3 && frame.lowest_toward(heights, 3) {
        assert(frame.open_toward(3));
    }
}

/// On a grid on which a river has carved the cells `carved`, a cell is open
/// to the river where it was open and is not carved, and is water where it
/// was water or is carved.
pub proof fn lemma_state_matches(
    claimed_before: Vec<Vec<bool>>,
    before: Vec<Vec<Tile>>,
    claimed_now: Vec<Vec<bool>>,
    now: Vec<Vec<Tile>>,
    size: int,
    carved: Set<(int, int)>,
    p: (int, int),
)
    requires
        river_carved(claimed_before, before, claimed_now, now, size, carved),
        inside(size, p.0, p.1),
    ensures
        forall|way: int|
            0 <= way < 4 ==> open_to_river(
                claimed_now,
                now,
                size,
                (#[trigger] toward(p, way)).0,
                toward(p, way).1,
            ) == still_open(claimed_before, before, size, carved, toward(p, way)),
        now[p.0][p.1].tile_type.is_water_spec() == wet(before, carved, p),
        has_outlet(claimed_now, now, size, p.0, p.1) == (frame_at(
            claimed_before,
            before,
            size,
            carved,
            p,
        ).weight() > 0),
        frame_at(claimed_before, before, size, carved, p).north == open_to_river(
            claimed_now,
            now,
            size,
            p.0 - 1,
            p.1,
        ),
        frame_at(claimed_before, before, size, carved, p).east == open_to_river(
            claimed_now,
            now,
            size,
            p.0,
            p.1 + 1,
        ),
        frame_at(claimed_before, before, size, carved, p).south == open_to_river(
            claimed_now,
            now,
            size,
            p.0 + 1,
            p.1,
        ),
        frame_at(claimed_before, before, size, carved, p).west == open_to_river(
            claimed_now,
            now,
            size,
            p.0,
            p.1 - 1,
        ),
{
    assert forall|way: int| 0 <= way < 4 implies open_to_river(
        claimed_now,
        now,
        size,
        (#[trigger] toward(p, way)).0,
        toward(p, way).1,
    ) == still_open(claimed_before, before, size, carved, toward(p, way)) by {
        let q = toward(p, way);
        if inside(size, q.0, q.1) {
            let t = now[q.0][q.1];
        }
    }
    let t = now[p.0][p.1];
    assert(toward(p, 0) == (p.0 - 1, p.1));
    assert(toward(p, 1) == (p.0, p.1 + 1));
    assert(toward(p, 2) == (p.0 + 1, p.1));
    assert(toward(p, 3) == (p.0, p.1 - 1));
}

/// A river leaves water as it is, leaves content and elevation as they are,
/// and leaves no more land than there was.
pub proof fn lemma_river_keeps_water(
    claimed_before: Vec<Vec<bool>>,
    before: Vec<Vec<Tile>>,
    claimed_now: Vec<Vec<bool>>,
    now: Vec<Vec<Tile>>,
    size: int,
)
    requires
        river_trace(claimed_before, before, claimed_now, now, size),
    ensures
        water_kept(before, now),
        same_filling(before, now),
        count_where(now, size, dry()) <= count_where(before, size, dry()),
{
    assert forall|r: int, c: int| inside(size, r, c) && dry()(#[trigger] now[r][c]) implies dry()(
        before[r][c],
    ) by {}
    lemma_count_shrinks(before, now, size, dry());
}

/// One river after another leaves the trace of a river.
pub proof fn lemma_river_trace_chain(
    c0: Vec<Vec<bool>>,
    m0: Vec<Vec<Tile>>,
    c1: Vec<Vec<bool>>,
    m1: Vec<Vec<Tile>>,
    c2: Vec<Vec<bool>>,
    m2: Vec<Vec<Tile>>,
    size: int,
)
    requires
        river_trace(c0, m0, c1, m1, size),
        river_trace(c1, m1, c2, m2, size),
    ensures
        river_trace(c0, m0, c2, m2, size),
{
    assert forall|r: int, c: int| inside(size, r, c) implies {
        ||| (#[trigger] m2[r][c]) == m0[r][c] && c2[r][c] == c0[r][c]
        ||| carved(m0[r][c], m2[r][c]) && c2[r][c]
    } by {
        let a = m1[r][c];
    }
}

/// What a river from the cell `start` carves on `ground` is taken and is
/// shallow water on the grid `map` with the marks `claimed`.
pub open spec fn flowed_from(
    ground: Ground,
    claimed: Vec<Vec<bool>>,
    map: Vec<Vec<Tile>>,
    start: (int, int),
) -> bool {
    forall|p: (int, int)|
        #[trigger] river_flow(ground, Set::empty(), None, start).1.contains(p) ==> inside(
            ground.size,
            p.0,
            p.1,
        ) && claimed[p.0][p.1] && map[p.0][p.1].tile_type == TileType::ShallowWater
}

/// A river has flowed over `ground` from one of its sources, a cell of hill
/// or mountain that was not taken, and what it carved is taken and is
/// shallow water on the grid `map` with the marks `claimed`.
pub open spec fn river_flowed(ground: Ground, claimed: Vec<Vec<bool>>, map: Vec<Vec<Tile>>) -> bool {
    exists|r: int, c: int|
        inside(ground.size, r, c) && #[trigger] wanted_at(
            ground.map,
            Some(&ground.claimed),
            Wanted::RiverSource,
            r,
            c,
        ) && flowed_from(ground, claimed, map, (r, c))
}

/// Between the lands `before` and `after` one river had its turn over the
/// heights `heights`. Where the land had a source, a cell of hill or
/// mountain that was not taken, the river started from one and carved the
/// cells that `river_flow` gives, and no others; where it had none,
/// nothing happened.
pub open spec fn river_ran(heights: Vec<Vec<i64>>, size: int, before: Land, after: Land) -> bool {
    if some_wanted(before.map, Some(&before.claimed), Wanted::RiverSource, 0, size) {
        exists|r: int, c: int|
            inside(size, r, c) && #[trigger] wanted_at(
                before.map,
                Some(&before.claimed),
                Wanted::RiverSource,
                r,
                c,
            ) && river_carved(
                before.claimed,
                before.map,
                after.claimed,
                after.map,
                size,
                river_flow(
                    Ground { heights, claimed: before.claimed, map: before.map, size },
                    Set::empty(),
                    None,
                    (r, c),
                ).1,
            )
    } else {
        after == before
    }
}

/// The river numbered `i` had its turn between the lands numbered `i` and
/// `i + 1`.
pub open spec fn river_link(heights: Vec<Vec<i64>>, size: int, lands: Seq<Land>, i: int) -> bool {
    river_ran(heights, size, lands[i], lands[i + 1])
}

/// One river after another had its turn, each on the land that the one
/// before left: `lands` holds the land before the first river, between
/// the rivers and after the last.
pub open spec fn rivers_ran(heights: Vec<Vec<i64>>, size: int, lands: Seq<Land>) -> bool {
    &&& lands.len() >= 1
    &&& forall|i: int| 0 <= i < lands.len() - 1 ==> #[trigger] river_link(heights, size, lands, i)
}

/// What a river from the cell `start` carves on `ground` is shallow water
/// on the grid `map`.
pub open spec fn lies_from(ground: Ground, map: Vec<Vec<Tile>>, start: (int, int)) -> bool {
    forall|p: (int, int)|
        #[trigger] river_flow(ground, Set::empty(), None, start).1.contains(p) ==> inside(
            ground.size,
            p.0,
            p.1,
        ) && map[p.0][p.1].tile_type == TileType::ShallowWater
}

/// A river has flowed over `ground` from one of its sources, a cell of hill
/// or mountain that was not taken, and what it carved is shallow water on
/// the grid `map`.
pub open spec fn river_lies(ground: Ground, map: Vec<Vec<Tile>>) -> bool {
    exists|r: int, c: int|
        inside(ground.size, r, c) && #[trigger] wanted_at(
            ground.map,
            Some(&ground.claimed),
            Wanted::RiverSource,
            r,
            c,
        ) && lies_from(ground, map, (r, c))
}

/// A river that has flowed still lies where water has stayed water.
pub proof fn lemma_river_stays(
    ground: Ground,
    claimed: Vec<Vec<bool>>,
    map: Vec<Vec<Tile>>,
    later: Vec<Vec<Tile>>,
)
    requires
        river_flowed(ground, claimed, map),
        square(map, ground.size),
        water_kept(map, later),
    ensures
        river_lies(ground, later),
{
    let (r, c) = choose|r: int, c: int|
        inside(ground.size, r, c) && #[trigger] wanted_at(
            ground.map,
            Some(&ground.claimed),
            Wanted::RiverSource,
            r,
            c,
        ) && flowed_from(ground, claimed, map, (r, c));
    assert forall|p: (int, int)|
        #[trigger] river_flow(ground, Set::empty(), None, (r, c)).1.contains(p) implies inside(
        ground.size,
        p.0,
        p.1,
    ) && later[p.0][p.1].tile_type == TileType::ShallowWater by {
        let t = map[p.0][p.1];
        assert(t.tile_type.is_water_spec());
    }
    assert(lies_from(ground, later, (r, c)));
}

/// What a river has carved is taken and is shallow water.
pub proof fn lemma_carved_has_flowed(
    ground: Ground,
    claimed: Vec<Vec<bool>>,
    map: Vec<Vec<Tile>>,
    start: (int, int),
)
    requires
        river_carved(
            ground.claimed,
            ground.map,
            claimed,
            map,
            ground.size,
            river_flow(ground, Set::empty(), None, start).1,
        ),
    ensures
        flowed_from(ground, claimed, map, start),
{
    let carved = river_flow(ground, Set::empty(), None, start).1;
    assert forall|p: (int, int)| #[trigger] carved.contains(p) implies inside(
        ground.size,
        p.0,
        p.1,
    ) && claimed[p.0][p.1] && map[p.0][p.1].tile_type == TileType::ShallowWater by {
        let t = map[p.0][p.1];
    }
}

/// What a river has carved stays taken and stays shallow water while other
/// rivers are carved.
pub proof fn lemma_flowed_stays(
    ground: Ground,
    claimed_before: Vec<Vec<bool>>,
    before: Vec<Vec<Tile>>,
    claimed_now: Vec<Vec<bool>>,
    now: Vec<Vec<Tile>>,
    start: (int, int),
)
    requires
        flowed_from(ground, claimed_before, before, start),
        river_trace(claimed_before, before, claimed_now, now, ground.size),
    ensures
        flowed_from(ground, claimed_now, now, start),
{
    let carved = river_flow(ground, Set::empty(), None, start).1;
    assert forall|p: (int, int)| #[trigger] carved.contains(p) implies inside(
        ground.size,
        p.0,
        p.1,
    ) && claimed_now[p.0][p.1] && now[p.0][p.1].tile_type == TileType::ShallowWater by {
        let t = now[p.0][p.1];
        assert(claimed_before[p.0][p.1]);
    }
}

} // verus!
