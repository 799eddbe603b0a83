//! Streets: walks over the land that mostly go straight and sometimes turn.

use vstd::prelude::*;
use rand::rngs::StdRng;
use crate::utils::constants::{CHANCE_SCALE, SAME_DIR_CHANCE};
use crate::utils::random::chance;
use crate::world::tile::{Tile, TileType};
use crate::world_generator::spawning_tools::grid::{
    inside, marks_kept, same_filling, some_wanted, square, wanted_at, water_kept, Land, Wanted,
};
use crate::world_generator::tile_type_options::CountRange;
use crate::world_generator::spawning_tools::matrix_spawn::HeightMap;
use crate::world_generator::spawning_tools::paths::adjacent;

verus! {

/// One of the four ways a street can go.
#[derive(Clone, Copy, Debug, PartialEq, Eq, Structural)]
pub enum Direction {
    North,
    East,
    South,
    West,
}

impl Direction {
    /// The step along the rows.
    pub open spec fn row_step(self) -> int {
        match self {
            Direction::North => -1,
            Direction::South => 1,
            _ => 0,
        }
    }

    /// The step along the columns.
    pub open spec fn col_step(self) -> int {
        match self {
            Direction::East => 1,
            Direction::West => -1,
            _ => 0,
        }
    }

    /// The first of the two directions across this one.
    pub open spec fn left_spec(self) -> Direction {
        match self {
            Direction::North => Direction::West,
            Direction::East => Direction::North,
            Direction::South => Direction::East,
            Direction::West => Direction::South,
        }
    }

    /// The second of the two directions across this one.
    pub open spec fn right_spec(self) -> Direction {
        match self {
            Direction::North => Direction::East,
            Direction::East => Direction::South,
            Direction::South => Direction::West,
            Direction::West => Direction::North,
        }
    }

    pub fn left(self) -> (r: Direction)
        ensures
            r == self.left_spec(),
    {
        match self {
            Direction::North => Direction::West,
            Direction::East => Direction::North,
            Direction::South => Direction::East,
            Direction::West => Direction::South,
        }
    }

    pub fn right(self) -> (r: Direction)
        ensures
            r == self.right_spec(),
    {
        match self {
            Direction::North => Direction::East,
            Direction::East => Direction::South,
            Direction::South => Direction::West,
            Direction::West => Direction::North,
        }
    }

    /// The direction with the given number: 0 east, 1 south, 2 west, and
    /// north for every other number.
    pub fn from_draw(n: usize) -> (r: Direction)
        ensures
            r == (if n == 0 {
                Direction::East
            } else if n == 1 {
                Direction::South
            } else if n == 2 {
                Direction::West
            } else {
                Direction::North
            }),
    {
        if n == 0 {
            Direction::East
        } else if n == 1 {
            Direction::South
        } else if n == 2 {
            Direction::West
        } else {
            Direction::North
        }
    }
}

/// A street may be laid on the cell at `(r, c)`: it lies on the grid, no
/// river or street has taken it, and it is not water.
pub open spec fn open_to_street(
    claimed: Vec<Vec<bool>>,
    map: Vec<Vec<Tile>>,
    size: int,
    r: int,
    c: int,
) -> bool {
    inside(size, r, c) && !claimed[r][c] && !map[r][c].tile_type.is_water_spec()
}

/// Where a street that stands on the cell at `(r, c)` and heads in
/// direction `dir` goes next, and how it heads then: straight on, if the
/// draw `straight` says so and the cell ahead is free; else to the first
/// side, if the draw `turn` says so and that cell is free; else to the
/// second side, if that cell is free. `None` where it ends.
pub open spec fn street_step_spec(
    claimed: Vec<Vec<bool>>,
    map: Vec<Vec<Tile>>,
    size: int,
    r: int,
    c: int,
    dir: Direction,
    straight: bool,
    turn: bool,
) -> Option<(int, int, Direction)> {
    let left = dir.left_spec();
    let right = dir.right_spec();
    if straight && open_to_street(claimed, map, size, r + dir.row_step(), c + dir.col_step()) {
        Some((r + dir.row_step(), c + dir.col_step(), dir))
    } else if turn && open_to_street(claimed, map, size, r + left.row_step(), c + left.col_step()) {
        Some((r + left.row_step(), c + left.col_step(), left))
    } else if open_to_street(claimed, map, size, r + right.row_step(), c + right.col_step()) {
        Some((r + right.row_step(), c + right.col_step(), right))
    } else {
        None
    }
}

/// `now` is the tile `before` with a street laid on it.
pub open spec fn paved(before: Tile, now: Tile) -> bool {
    &&& !before.tile_type.is_water_spec()
    &&& now.tile_type == TileType::Street
    &&& now.content == before.content
    &&& now.elevation == before.elevation
}

/// Between `before` and `now` a street has done nothing but pave cells:
/// each cell is as it was, or was free, is paved and is taken.
pub open spec fn street_trace(
    claimed_before: Vec<Vec<bool>>,
    before: Vec<Vec<Tile>>,
    claimed_now: Vec<Vec<bool>>,
    now: Vec<Vec<Tile>>,
    size: int,
) -> bool {
    &&& square(before, size)
    &&& square(now, size)
    &&& square(claimed_before, size)
    &&& square(claimed_now, size)
    &&& marks_kept(claimed_before, claimed_now)
    &&& forall|r: int, c: int|
        inside(size, r, c) ==> {
            ||| (#[trigger] now[r][c]) == before[r][c] && claimed_now[r][c] == claimed_before[r][c]
            ||| !claimed_before[r][c] && paved(before[r][c], now[r][c]) && claimed_now[r][c]
        }
}

/// A street leaves water as it is: no cell goes from water to another
/// terrain while a street is laid. It leaves content and elevation as they
/// are, too.
pub proof fn lemma_street_keeps_water(
    claimed_before: Vec<Vec<bool>>,
    before: Vec<Vec<Tile>>,
    claimed_now: Vec<Vec<bool>>,
    now: Vec<Vec<Tile>>,
    size: int,
)
    requires
        street_trace(claimed_before, before, claimed_now, now, size),
    ensures
        water_kept(before, now),
        same_filling(before, now),
{
    assert forall|r: int, c: int|
        0 <= r < before.len() && 0 <= c < before[r].len() implies (#[trigger] now[r][c]).content
        == before[r][c].content && now[r][c].elevation == before[r][c].elevation by {
        assert(inside(size, r, c));
    }
    assert forall|r: int, c: int|
        0 <= r < before.len() && 0 <= c < before[r].len() && (
        #[trigger] before[r][c]).tile_type.is_water_spec() implies now[r][c].tile_type
        == before[r][c].tile_type by {
        assert(inside(size, r, c));
        let t = now[r][c];
    }
}

/// `path` is a walk over cells that were free: each lies one step from the
/// one before, and none comes twice.
pub open spec fn is_walk(
    claimed: Vec<Vec<bool>>,
    map: Vec<Vec<Tile>>,
    size: int,
    path: Seq<(int, int)>,
) -> bool {
    &&& forall|i: int|
        0 <= i < path.len() ==> open_to_street(
            claimed,
            map,
            size,
            (#[trigger] path[i]).0,
            path[i].1,
        )
    &&& forall|i: int| 0 <= i < path.len() - 1 ==> adjacent(#[trigger] path[i], path[i + 1])
    &&& path.no_duplicates()
}

/// Between `before` and `now` a street has walked along `path`: the cells
/// of the walk, and no others, are paved and taken.
pub open spec fn street_walked(
    claimed_before: Vec<Vec<bool>>,
    before: Vec<Vec<Tile>>,
    claimed_now: Vec<Vec<bool>>,
    now: Vec<Vec<Tile>>,
    size: int,
    path: Seq<(int, int)>,
) -> bool {
    &&& is_walk(claimed_before, before, size, path)
    &&& forall|r: int, c: int|
        inside(size, r, c) ==> if path.contains((r, c)) {
            paved(before[r][c], #[trigger] now[r][c]) && claimed_now[r][c]
        } else {
            now[r][c] == before[r][c] && claimed_now[r][c] == claimed_before[r][c]
        }
}

/// `heads` holds, for each cell of the walk `path`, how the street headed
/// when it stood there: first in direction `first`, and at each later cell
/// as at the cell before or to one side of that, which is the way that led
/// from the cell before to this one.
pub open spec fn street_headed(path: Seq<(int, int)>, heads: Seq<Direction>, first: Direction) -> bool {
    &&& heads.len() == path.len()
    &&& path.len() > 0 ==> heads[0] == first
    &&& forall|i: int| 0 <= i < path.len() - 1 ==> #[trigger] street_turn(path, heads, i)
}

/// From the cell numbered `i` of the walk `path` the street went straight
/// on or to a side, and came to the next cell of the walk that way.
pub open spec fn street_turn(path: Seq<(int, int)>, heads: Seq<Direction>, i: int) -> bool {
    let before = heads[i];
    let now = heads[i + 1];
    &&& now == before || now == before.left_spec() || now == before.right_spec()
    &&& path[i + 1] == (path[i].0 + now.row_step(), path[i].1 + now.col_step())
}

/// Between `before` and `now` a street of up to `distance` cells was laid
/// from the cell `start`, heading in direction `first`, along the walk
/// `path` with the headings `heads`. The walk begins at `start`, if a
/// street may be laid there and `distance` is not 0. Where it is shorter
/// than `distance`, it ended because the cell to the second side of its
/// last heading, seen from its last cell, was not free.
pub open spec fn street_laid(
    claimed_before: Vec<Vec<bool>>,
    before: Vec<Vec<Tile>>,
    claimed_now: Vec<Vec<bool>>,
    now: Vec<Vec<Tile>>,
    size: int,
    start: (int, int),
    first: Direction,
    distance: int,
    path: Seq<(int, int)>,
    heads: Seq<Direction>,
) -> bool {
    &&& street_walked(claimed_before, before, claimed_now, now, size, path)
    &&& street_headed(path, heads, first)
    &&& path.len() <= distance
    &&& path.len() > 0 ==> path[0] == start
    &&& distance > 0 && open_to_street(claimed_before, before, size, start.0, start.1)
        ==> path.len() > 0
    &&& 0 < path.len() < distance ==> !open_to_street(
        claimed_now,
        now,
        size,
        path.last().0 + heads.last().right_spec().row_step(),
        path.last().1 + heads.last().right_spec().col_step(),
    )
}

/// Between the lands `before` and `after` one street had its turn. Where
/// the land had a start, a cell of hill or grass that was not taken, the
/// street was laid from one as `street_laid` says, with some first heading
/// and a length from `lengths`; where it had none, nothing happened.
pub open spec fn street_ran(size: int, lengths: CountRange, before: Land, after: Land) -> bool {
    if some_wanted(before.map, Some(&before.claimed), Wanted::StreetStart, 0, size) {
        exists|
            start: (int, int),
            first: Direction,
            length: int,
            path: Seq<(int, int)>,
            heads: Seq<Direction>,
        |
            inside(size, start.0, start.1) && wanted_at(
                before.map,
                Some(&before.claimed),
                Wanted::StreetStart,
                start.0,
                start.1,
            ) && lengths.contains_spec(length) && #[trigger] street_laid(
                before.claimed,
                before.map,
                after.claimed,
                after.map,
                size,
                start,
                first,
                length,
                path,
                heads,
            )
    } else {
        after == before
    }
}

/// The street numbered `i` had its turn between the lands numbered `i` and
/// `i + 1`.
pub open spec fn street_link(size: int, lengths: CountRange, lands: Seq<Land>, i: int) -> bool {
    street_ran(size, lengths, lands[i], lands[i + 1])
}

/// One street after another had its turn, each on the land that the one
/// before left: `lands` holds the land before the first street, between
/// the streets and after the last.
pub open spec fn streets_ran(size: int, lengths: CountRange, lands: Seq<Land>) -> bool {
    &&& lands.len() >= 1
    &&& forall|i: int| 0 <= i < lands.len() - 1 ==> #[trigger] street_link(size, lengths, lands, i)
}

/// A walk goes on to a free cell one step from its end.
pub proof fn lemma_walk_grows(
    claimed0: Vec<Vec<bool>>,
    map0: Vec<Vec<Tile>>,
    claimed1: Vec<Vec<bool>>,
    map1: Vec<Vec<Tile>>,
    claimed2: Vec<Vec<bool>>,
    map2: Vec<Vec<Tile>>,
    size: int,
    path: Seq<(int, int)>,
    cell: (int, int),
)
    requires
        street_walked(claimed0, map0, claimed1, map1, size, path),
        open_to_street(claimed1, map1, size, cell.0, cell.1),
        path.len() > 0 ==> adjacent(path.last(), cell),
        paved(map1[cell.0][cell.1], map2[cell.0][cell.1]),
        claimed2[cell.0][cell.1],
        forall|r: int, c: int|
            inside(size, r, c) && !(r == cell.0 && c == cell.1) ==> (#[trigger] map2[r][c])
                == map1[r][c] && claimed2[r][c] == claimed1[r][c],
    ensures
        street_walked(claimed0, map0, claimed2, map2, size, path.push(cell)),
{
    let longer = path.push(cell);
    let t = map1[cell.0][cell.1];
    assert(!path.contains(cell));
    assert forall|i: int| 0 <= i < longer.len() implies open_to_street(
        claimed0,
        map0,
        size,
        (#[trigger] longer[i]).0,
        longer[i].1,
    ) by {
        if i < path.len() {
            assert(longer[i] == path[i]);
        }
    }
    assert forall|i: int| 0 <= i < longer.len() - 1 implies adjacent(
        #[trigger] longer[i],
        longer[i + 1],
    ) by {
        if i + 1 < path.len() {
            assert(longer[i] == path[i] && longer[i + 1] == path[i + 1]);
        } else {
            assert(longer[i] == path.last());
        }
    }
    assert forall|i: int, j: int|
        0 <= i < longer.len() && 0 <= j < longer.len() && i != j implies longer[i]
        != longer[j] by {
        if i < path.len() && j < path.len() {
            assert(path[i] != path[j]);
        } else if i < path.len() {
            assert(path.contains(path[i]));
        } else {
            assert(path.contains(path[j]));
        }
    }
    assert forall|r: int, c: int| inside(size, r, c) implies if longer.contains((r, c)) {
        paved(map0[r][c], #[trigger] map2[r][c]) && claimed2[r][c]
    } else {
        map2[r][c] == map0[r][c] && claimed2[r][c] == claimed0[r][c]
    } by {
        let a = map1[r][c];
        if r == cell.0 && c == cell.1 {
            assert((r, c) == cell);
            assert(longer[path.len() as int] == cell);
            assert(longer.contains((r, c)));
            assert(!path.contains((r, c)));
            assert(map1[r][c] == map0[r][c]);
        } else if path.contains((r, c)) {
            let i = choose|i: int| 0 <= i < path.len() && path[i] == (r, c);
            assert(longer[i] == (r, c));
            assert(longer.contains((r, c)));
            assert(paved(map0[r][c], map1[r][c]) && claimed1[r][c]);
            assert(map2[r][c] == map1[r][c]);
        } else {
            if longer.contains((r, c)) {
                let i = choose|i: int| 0 <= i < longer.len() && longer[i] == (r, c);
                if i < path.len() {
                    assert(path[i] == (r, c));
                    assert(path.contains((r, c)));
                } else {
                    assert(longer[i] == cell);
                }
            }
            assert(!longer.contains((r, c)));
            assert(map1[r][c] == map0[r][c] && claimed1[r][c] == claimed0[r][c]);
            assert(map2[r][c] == map1[r][c]);
        }
    }
}

/// The headings of a walk go on with the heading that led to a further
/// cell, where that is the last heading or lies to one side of it.
pub proof fn lemma_heading_grows(
    path: Seq<(int, int)>,
    heads: Seq<Direction>,
    first: Direction,
    cell: (int, int),
    dir: Direction,
)
    requires
        street_headed(path, heads, first),
        path.len() == 0 ==> dir == first,
        path.len() > 0 ==> (dir == heads.last() || dir == heads.last().left_spec() || dir
            == heads.last().right_spec()) && cell == (
            path.last().0 + dir.row_step(),
            path.last().1 + dir.col_step(),
        ),
    ensures
        street_headed(path.push(cell), heads.push(dir), first),
{
    let longer = path.push(cell);
    let headed = heads.push(dir);
    assert forall|i: int| 0 <= i < longer.len() - 1 implies #[trigger] street_turn(
        longer,
        headed,
        i,
    ) by {
        if i + 1 < path.len() {
            assert(street_turn(path, heads, i));
            assert(headed[i] == heads[i] && headed[i + 1] == heads[i + 1]);
            assert(longer[i] == path[i] && longer[i + 1] == path[i + 1]);
        } else {
            assert(headed[i] == heads.last() && longer[i] == path.last());
        }
    }
}

/// One street after another leaves the trace of a street.
pub proof fn lemma_street_trace_chain(
    c0: Vec<Vec<bool>>,
    m0: Vec<Vec<Tile>>,
    c1: Vec<Vec<bool>>,
    m1: Vec<Vec<Tile>>,
    c2: Vec<Vec<bool>>,
    m2: Vec<Vec<Tile>>,
    size: int,
)
    requires
        street_trace(c0, m0, c1, m1, size),
        street_trace(c1, m1, c2, m2, size),
    ensures
        street_trace(c0, m0, c2, m2, size),
{
    assert forall|r: int, c: int| inside(size, r, c) implies {
        ||| (#[trigger] m2[r][c]) == m0[r][c] && c2[r][c] == c0[r][c]
        ||| !c0[r][c] && paved(m0[r][c], m2[r][c]) && c2[r][c]
    } by {
        let a = m1[r][c];
    }
}

impl HeightMap {
    /// The cell one step from `(row, col)` in direction `dir`, if a street
    /// may be laid on it.
    pub fn street_ahead(&self, map: &Vec<Vec<Tile>>, row: usize, col: usize, dir: Direction) -> (next:
        Option<(usize, usize)>)
        requires
            self.wf(),
            square(*map, self.size as int),
            row < self.size,
            col < self.size,
        ensures
            next is Some <==> open_to_street(
                self.claimed,
                *map,
                self.size as int,
                row + dir.row_step(),
                col + dir.col_step(),
            ),
            next matches Some((r, c)) ==> r == row + dir.row_step() && c == col + dir.col_step(),
    {
        let size: usize = self.size;
        let (r, c): (usize, usize) = match dir {
            Direction::North => {
                if row == 0 {
                    return None;
                }
                (row - 1, col)
            },
            Direction::East => {
                if col + 1 >= size {
                    return None;
                }
                (row, col + 1)
            },
            Direction::South => {
                if row + 1 >= size {
                    return None;
                }
                (row + 1, col)
            },
            Direction::West => {
                if col == 0 {
                    return None;
                }
                (row, col - 1)
            },
        };
        if self.claimed[r][c] || map[r][c].tile_type.is_water() {
            None
        } else {
            Some((r, c))
        }
    }

    /// Where a street on the cell at `(row, col)` goes next, given the two
    /// draws.
    pub fn street_step(
        &self,
        map: &Vec<Vec<Tile>>,
        row: usize,
        col: usize,
        dir: Direction,
        straight: bool,
        turn: bool,
    ) -> (next: Option<(usize, usize, Direction)>)
        requires
            self.wf(),
            square(*map, self.size as int),
            row < self.size,
            col < self.size,
        ensures
            match next {
                Some((r, c, d)) => street_step_spec(
                    self.claimed,
                    *map,
                    self.size as int,
                    row as int,
                    col as int,
                    dir,
                    straight,
                    turn,
                ) == Some((r as int, c as int, d)),
                None => street_step_spec(
                    self.claimed,
                    *map,
                    self.size as int,
                    row as int,
                    col as int,
                    dir,
                    straight,
                    turn,
                ) is None,
            },
    {
        if straight {
            match self.street_ahead(map, row, col, dir) {
                Some((r, c)) => {
                    return Some((r, c, dir));
                },
                None => {},
            }
        }
        if turn {
            match self.street_ahead(map, row, col, dir.left()) {
                Some((r, c)) => {
                    return Some((r, c, dir.left()));
                },
                None => {},
            }
        }
        match self.street_ahead(map, row, col, dir.right()) {
            Some((r, c)) => Some((r, c, dir.right())),
            None => None,
        }
    }

    /// Lays a street of up to `distance` cells from the cell at
    /// `(row, col)`, heading in direction `prev_dir`. Each cell it comes to
    /// is paved and taken. From there the street goes on straight with a
    /// chance of `SAME_DIR_CHANCE` in `CHANCE_SCALE`, if the cell ahead is
    /// free; else, on the toss of a coin, to the first side, if that cell is
    /// free; else to the second side, if that cell is free; and ends where
    /// none of this is possible. Water is never paved.
    ///
    /// The street is a walk of no more than `distance` cells from the cell
    /// at `(row, col)` over cells that were free; its cells, and no
    /// others, are paved and taken. Each of its steps goes straight on or
    /// to a side, and a street shorter than `distance` has ended where the
    /// cell to the second side was not free.
    #[verifier::rlimit(40)]
    pub fn street_spawn(
        &mut self,
        map: &mut Vec<Vec<Tile>>,
        row: usize,
        col: usize,
        rng: &mut StdRng,
        prev_dir: Direction,
        distance: usize,
    )
        requires
            old(self).wf(),
            square(*old(map), old(self).size as int),
            row < old(self).size,
            col < old(self).size,
        ensures
            final(self).wf(),
            final(self).heights == old(self).heights,
            final(self).min == old(self).min,
            final(self).max == old(self).max,
            final(self).size == old(self).size,
            final(self).seed == old(self).seed,
            final(self).with_info == old(self).with_info,
            street_trace(
                old(self).claimed,
                *old(map),
                final(self).claimed,
                *final(map),
                old(self).size as int,
            ),
            distance > 0 && open_to_street(
                old(self).claimed,
                *old(map),
                old(self).size as int,
                row as int,
                col as int,
            ) ==> paved(old(map)[row as int][col as int], final(map)[row as int][col as int]),
            distance == 0 || !open_to_street(
                old(self).claimed,
                *old(map),
                old(self).size as int,
                row as int,
                col as int,
            ) ==> *final(map) == *old(map) && final(self).claimed == old(self).claimed,
            exists|path: Seq<(int, int)>, heads: Seq<Direction>|
                #[trigger] street_laid(
                    old(self).claimed,
                    *old(map),
                    final(self).claimed,
                    *final(map),
                    old(self).size as int,
                    (row as int, col as int),
                    prev_dir,
                    distance as int,
                    path,
                    heads,
                ),
    {
        let size: usize = self.size;
        let ghost claimed0 = self.claimed;
        let ghost map0 = *map;
        let ghost mut path: Seq<(int, int)> = Seq::empty();
        let ghost mut heads: Seq<Direction> = Seq::empty();
        let ghost start = (row as int, col as int);
        if distance == 0 || self.claimed[row][col] || map[row][col].tile_type.is_water() {
            assert(street_laid(
                claimed0,
                map0,
                self.claimed,
                *map,
                size as int,
                start,
                prev_dir,
                distance as int,
                path,
                heads,
            ));
            return ;
        }
        let mut r: usize = row;
        let mut c: usize = col;
        let mut dir: Direction = prev_dir;
        let mut left: usize = distance;
        while left > 0
            invariant
                self.wf(),
                size == self.size == old(self).size,
                self.heights == old(self).heights,
                self.min == old(self).min,
                self.max == old(self).max,
                self.seed == old(self).seed,
                self.with_info == old(self).with_info,
                claimed0 == old(self).claimed,
                map0 == *old(map),
                street_trace(claimed0, map0, self.claimed, *map, size as int),
                r < size,
                c < size,
                row < size,
                col < size,
                left > 0 ==> open_to_street(self.claimed, *map, size as int, r as int, c as int),
                left < distance ==> paved(map0[row as int][col as int], map[row as int][col as int]),
                left == distance ==> r == row && c == col,
                left <= distance,
                distance > 0,
                street_walked(claimed0, map0, self.claimed, *map, size as int, path),
                path.len() == distance - left,
                path.len() > 0 ==> path[0] == (row as int, col as int) && adjacent(
                    path.last(),
                    (r as int, c as int),
                ),
                open_to_street(claimed0, map0, size as int, row as int, col as int),
                start == (row as int, col as int),
                street_headed(path, heads, prev_dir),
                path.len() == 0 ==> dir == prev_dir,
                path.len() > 0 ==> (dir == heads.last() || dir == heads.last().left_spec() || dir
                    == heads.last().right_spec()) && (r as int, c as int) == (
                    path.last().0 + dir.row_step(),
                    path.last().1 + dir.col_step(),
                ),
            decreases left,
        {
            let ghost before = *map;
            let ghost claimed1 = self.claimed;
            self.claimed[r][c] = true;
            map[r][c].tile_type = TileType::Street;
            proof {
                let n = size as int;
                old(self).lemma_marks_keep_wf(*self);
                lemma_walk_grows(
                    claimed0,
                    map0,
                    claimed1,
                    before,
                    self.claimed,
                    *map,
                    n,
                    path,
                    (r as int, c as int),
                );
                lemma_heading_grows(path, heads, prev_dir, (r as int, c as int), dir);
                let longer = path.push((r as int, c as int));
                let headed = heads.push(dir);
                path = longer;
                heads = headed;
            }
            left -= 1;
            let straight = chance(rng, SAME_DIR_CHANCE, CHANCE_SCALE);
            let turn = if straight && self.street_ahead(map, r, c, dir).is_some() {
                false
            } else {
                chance(rng, 1, 2)
            };
            match self.street_step(map, r, c, dir, straight, turn) {
                Some((nr, nc, heading)) => {
                    r = nr;
                    c = nc;
                    dir = heading;
                },
                None => {
                    assert(street_laid(
                    claimed0,
                    map0,
                    self.claimed,
                    *map,
                    size as int,
                    start,
                    prev_dir,
                    distance as int,
                    path,
                    heads,
                ));
                    return ;
                },
            }
        }
        assert(street_laid(
                claimed0,
                map0,
                self.claimed,
                *map,
                size as int,
                start,
                prev_dir,
                distance as int,
                path,
                heads,
            ));
    }
}


} // verus!
