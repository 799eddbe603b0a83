//! Mazes: corridors carved into a grid of walls by a depth-first walk, each
//! carved cell given the terrain of its height.

use vstd::prelude::*;
use rand::rngs::StdRng;
use crate::utils::constants::MAX_WORLD_SIZE;
use crate::utils::random::{draw_below, draw_between, shuffle};
use crate::world::tile::{Content, Tile, TileType};
use crate::world_generator::spawning_tools::grid::{
    filled, inside, pick_cell, same_terrain, square, wanted_at, Wanted,
};
use crate::world_generator::spawning_tools::matrix_spawn::HeightMap;
use crate::world_generator::spawning_tools::measure::{
    cells_at, cells_where, count_at, count_where, lemma_cell_number, lemma_count_at_one,
    lemma_count_drops, lemma_count_one_cell,
};
use crate::world_generator::spawning_tools::paths::{
    adjacent, connected, framed, leads, lemma_path_extend, lemma_path_of_one, lemma_path_stays,
    lemma_rooted_connected, lemma_terrain_decides, linked, open_cell, rooted,
};
use crate::world_generator::spawning_tools::TileMat;
use crate::world_generator::tile_type_options::{lemma_classify_covers, OxAgTileTypeOptions};

verus! {

/// A grid of walls that becomes a maze, and the field of heights that
/// gives its corridors their terrain.
#[derive(Debug)]
pub struct MazeBuilder {
    pub seed: u64,
    pub size: usize,
    pub map: Vec<Vec<Tile>>,
    pub field: HeightMap,
}

/// A wall with nothing on it.
pub open spec fn bare_wall() -> Tile {
    Tile { tile_type: TileType::Wall, content: Content::Empty, elevation: 0 }
}

/// The tiles that are walls.
pub open spec fn walls() -> spec_fn(Tile) -> bool {
    |t: Tile| t.tile_type == TileType::Wall
}

/// `now` is what carving makes of the tile `before` on a cell of height
/// `raw`: it has the terrain of that height, taken as a level. In a water
/// band it carries some amount of water and lies at elevation 0; elsewhere
/// it keeps the content and the elevation of `before`.
pub open spec fn biomed(options: OxAgTileTypeOptions, raw: int, before: Tile, now: Tile) -> bool {
    &&& now.tile_type == options.classify_spec(raw)
    &&& if options.deep_water_level.contains_spec(raw) || options.shallow_water_level.contains_spec(
        raw,
    ) {
        &&& now.elevation == 0
        &&& now.content matches Content::Water(k)
        &&& k < Content::Water(0).max_spec()
    } else {
        &&& now.content == before.content
        &&& now.elevation == before.elevation
    }
}

/// Each cell of the maze is a bare wall or a cell carved from a bare wall.
pub open spec fn maze_cells(
    options: OxAgTileTypeOptions,
    heights: Vec<Vec<i64>>,
    map: Vec<Vec<Tile>>,
    size: int,
) -> bool {
    forall|r: int, c: int|
        inside(size, r, c) ==> (#[trigger] map[r][c]) == bare_wall() || biomed(
            options,
            heights[r][c] as int,
            bare_wall(),
            map[r][c],
        )
}

/// `now` is the tile `before`, or the tile `before` with one jolly block on
/// it, which goes on no wall.
pub open spec fn jollied(before: Tile, now: Tile) -> bool {
    ||| now == before
    ||| {
        &&& before.tile_type != TileType::Wall
        &&& now.tile_type == before.tile_type
        &&& now.elevation == before.elevation
        &&& now.content == Content::JollyBlock(1)
    }
}

/// Between `before` and `now` nothing has happened but that jolly blocks
/// were set on cells that are not walls.
pub open spec fn jollied_only(before: Vec<Vec<Tile>>, now: Vec<Vec<Tile>>, size: int) -> bool {
    &&& square(before, size)
    &&& square(now, size)
    &&& forall|r: int, c: int| inside(size, r, c) ==> jollied(before[r][c], #[trigger] now[r][c])
}

/// The tiles that carry one jolly block.
pub open spec fn jolly() -> spec_fn(Tile) -> bool {
    |t: Tile| t.content == Content::JollyBlock(1)
}

/// Some cell carries one jolly block.
pub open spec fn has_jolly(map: Vec<Vec<Tile>>, size: int) -> bool {
    exists|r: int, c: int|
        inside(size, r, c) && (#[trigger] map[r][c]).content == Content::JollyBlock(1)
}

/// Every content but a jolly block lies on a terrain that can hold it.
pub open spec fn fits_but_jolly(map: Vec<Vec<Tile>>) -> bool {
    forall|r: int, c: int|
        0 <= r < map.len() && 0 <= c < map[r].len() && !((#[trigger] map[r][c]).content is Empty)
            && !(map[r][c].content is JollyBlock) ==> map[r][c].tile_type.can_hold_spec(
            map[r][c].content,
        )
}

/// No wall carries a content.
pub open spec fn walls_bare(map: Vec<Vec<Tile>>, size: int) -> bool {
    forall|r: int, c: int|
        inside(size, r, c) && (#[trigger] map[r][c]).tile_type == TileType::Wall
            ==> map[r][c].content is Empty
}

/// The grid carries no more jolly blocks than a maze of its side gets: a
/// tenth of the side, and one for the goal.
pub open spec fn jolly_bounded(map: Vec<Vec<Tile>>, size: int) -> bool {
    count_where(map, size, jolly()) <= size / 10 + 1
}

/// Every jolly block on the grid is one block.
pub open spec fn jolly_whole(map: Vec<Vec<Tile>>, size: int) -> bool {
    forall|r: int, c: int|
        inside(size, r, c) && (#[trigger] map[r][c]).content is JollyBlock ==> map[r][c].content
            == Content::JollyBlock(1)
}

/// The cell `p` is a node of the maze: off the frame, in an odd row and an
/// odd column.
pub open spec fn is_node(size: int, p: (int, int)) -> bool {
    1 <= p.0 <= size - 2 && 1 <= p.1 <= size - 2 && p.0 % 2 == 1 && p.1 % 2 == 1
}

/// The number of the direction that a drawn byte stands for: 0 for the
/// next column but one, 1 for the column before the last, 2 for the next
/// row but one, and 3, which every other byte stands for, for the row
/// before the last.
pub open spec fn way_of(drawn: u8) -> int {
    if drawn == 0 {
        0
    } else if drawn == 1 {
        1
    } else if drawn == 2 {
        2
    } else {
        3
    }
}

/// The cell `steps` cells from `p` in the direction numbered `way`.
pub open spec fn maze_toward(p: (int, int), way: int, steps: int) -> (int, int) {
    if way == 0 {
        (p.0, p.1 + steps)
    } else if way == 1 {
        (p.0, p.1 - steps)
    } else if way == 2 {
        (p.0 + steps, p.1)
    } else {
        (p.0 - steps, p.1)
    }
}

/// Every node two cells from the node `p` is open.
pub open spec fn settled(map: Vec<Vec<Tile>>, size: int, p: (int, int)) -> bool {
    forall|way: int|
        0 <= way < 4 && is_node(size, #[trigger] maze_toward(p, way, 2)) ==> open_cell(
            map,
            size,
            maze_toward(p, way, 2),
        )
}

/// The cell `p` is on the stack of the walk, which holds cells as column
/// and row.
pub open spec fn on_stack(stack: Seq<(usize, usize)>, p: (int, int)) -> bool {
    exists|i: int| 0 <= i < stack.len() && (#[trigger] stack[i]).0 == p.1 && stack[i].1 == p.0
}

/// The cells in an even row and an even column are walls.
pub open spec fn pillars(map: Vec<Vec<Tile>>, size: int) -> bool {
    forall|r: int, c: int|
        inside(size, r, c) && r % 2 == 0 && c % 2 == 0 ==> (#[trigger] map[r][c]).tile_type
            == TileType::Wall
}

/// Every node of the maze is open.
pub open spec fn all_nodes_open(map: Vec<Vec<Tile>>, size: int) -> bool {
    forall|p: (int, int)| #[trigger] is_node(size, p) ==> open_cell(map, size, p)
}

/// One of the bytes stands for the direction numbered `way`.
pub open spec fn stands_for(bytes: Seq<u8>, way: int) -> bool {
    exists|i: int| 0 <= i < bytes.len() && way_of(#[trigger] bytes[i]) == way
}

/// Four bytes that hold what 0, 1, 2 and 3 hold, in any order, stand for
/// each of the four directions.
pub proof fn lemma_shuffled_has_all(shuffled: Seq<u8>)
    requires
        shuffled.to_multiset() == seq![0u8, 1u8, 2u8, 3u8].to_multiset(),
    ensures
        shuffled.len() == 4,
        forall|way: int| 0 <= way < 4 ==> #[trigger] stands_for(shuffled, way),
{
    let sorted = seq![0u8, 1u8, 2u8, 3u8];
    vstd::seq_lib::to_multiset_len(shuffled);
    vstd::seq_lib::to_multiset_len(sorted);
    assert forall|way: int| 0 <= way < 4 implies #[trigger] stands_for(shuffled, way) by {
        let byte = way as u8;
        assert(sorted[way] == byte);
        assert(sorted.contains(byte));
        vstd::seq_lib::to_multiset_contains(sorted, byte);
        vstd::seq_lib::to_multiset_contains(shuffled, byte);
        assert(shuffled.contains(byte));
        let i = choose|i: int| 0 <= i < shuffled.len() && shuffled[i] == byte;
        assert(way_of(shuffled[i]) == way);
    }
}

/// Where the node `start` is open and every open node is settled, every
/// node is open: from `start` each node is reached two cells at a time.
pub proof fn lemma_nodes_all_open(map: Vec<Vec<Tile>>, size: int, start: (int, int), p: (int, int))
    requires
        is_node(size, start),
        open_cell(map, size, start),
        forall|q: (int, int)|
            is_node(size, q) && #[trigger] open_cell(map, size, q) ==> settled(map, size, q),
        is_node(size, p),
    ensures
        open_cell(map, size, p),
    decreases
            (if p.0 >= start.0 {
                p.0 - start.0
            } else {
                start.0 - p.0
            }) + (if p.1 >= start.1 {
                p.1 - start.1
            } else {
                start.1 - p.1
            }),
{
    if p == start {
    } else if p.0 > start.0 {
        let q = (p.0 - 2, p.1);
        lemma_nodes_all_open(map, size, start, q);
        assert(maze_toward(q, 2, 2) == p);
    } else if p.0 < start.0 {
        let q = (p.0 + 2, p.1);
        lemma_nodes_all_open(map, size, start, q);
        assert(maze_toward(q, 3, 2) == p);
    } else if p.1 > start.1 {
        let q = (p.0, p.1 - 2);
        lemma_nodes_all_open(map, size, start, q);
        assert(maze_toward(q, 0, 2) == p);
    } else {
        let q = (p.0, p.1 + 2);
        lemma_nodes_all_open(map, size, start, q);
        assert(maze_toward(q, 1, 2) == p);
    }
}

/// The cells of the grid that are not walls.
pub open spec fn corridor_at(map: Vec<Vec<Tile>>) -> spec_fn(int, int) -> bool {
    |r: int, c: int| map[r][c].tile_type != TileType::Wall
}

/// The nodes of the grid that are not walls.
pub open spec fn open_node_at(map: Vec<Vec<Tile>>, size: int) -> spec_fn(int, int) -> bool {
    |r: int, c: int| is_node(size, (r, c)) && map[r][c].tile_type != TileType::Wall
}

/// The two cells that a cell in an odd row lies between in its row, and
/// that any other cell lies between in its column.
pub open spec fn link_ends(p: (int, int)) -> ((int, int), (int, int)) {
    if p.0 % 2 == 1 {
        ((p.0, p.1 - 1), (p.0, p.1 + 1))
    } else {
        ((p.0 - 1, p.1), (p.0 + 1, p.1))
    }
}

/// Every open cell that is no node lies between two open cells.
pub open spec fn links_joined(map: Vec<Vec<Tile>>, size: int) -> bool {
    forall|p: (int, int)|
        #[trigger] open_cell(map, size, p) && !is_node(size, p) ==> open_cell(
            map,
            size,
            link_ends(p).0,
        ) && open_cell(map, size, link_ends(p).1)
}

/// The open cells are one fewer than twice the open nodes: one fewer cells
/// link the nodes than there are nodes, as the edges of a tree do.
pub open spec fn tree_count(map: Vec<Vec<Tile>>, size: int) -> bool {
    count_at(size, corridor_at(map)) + 1 == 2 * count_at(size, open_node_at(map, size))
}

/// A maze of one open node is a tree.
pub proof fn lemma_tree_of_one(blank: Vec<Vec<Tile>>, now: Vec<Vec<Tile>>, size: int, start: (int, int))
    requires
        is_node(size, start),
        forall|r: int, c: int| inside(size, r, c) ==> (#[trigger] blank[r][c]) == bare_wall(),
        now[start.0][start.1].tile_type != TileType::Wall,
        forall|r: int, c: int|
            inside(size, r, c) && !(r == start.0 && c == start.1) ==> (#[trigger] now[r][c])
                == blank[r][c],
    ensures
        tree_count(now, size),
        links_joined(now, size),
{
    assert(cells_at(size, corridor_at(blank)) =~= Set::empty()) by {
        assert forall|k: int| !cells_at(size, corridor_at(blank)).contains(k) by {
            if 0 <= k < size * size {
                lemma_cell_number(size, k);
                assert(blank[k / size][k % size] == bare_wall());
            }
        }
    }
    assert(cells_at(size, open_node_at(blank, size)) =~= Set::empty()) by {
        assert forall|k: int| !cells_at(size, open_node_at(blank, size)).contains(k) by {
            if 0 <= k < size * size {
                lemma_cell_number(size, k);
                assert(blank[k / size][k % size] == bare_wall());
            }
        }
    }
    assert forall|i: int, j: int|
        inside(size, i, j) && !(i == start.0 && j == start.1) implies #[trigger] corridor_at(now)(
        i,
        j,
    ) == corridor_at(blank)(i, j) by {
        assert(now[i][j] == blank[i][j]);
    }
    assert forall|i: int, j: int|
        inside(size, i, j) && !(i == start.0 && j == start.1) implies #[trigger] open_node_at(
        now,
        size,
    )(i, j) == open_node_at(blank, size)(i, j) by {
        assert(now[i][j] == blank[i][j]);
    }
    assert(blank[start.0][start.1] == bare_wall());
    lemma_count_at_one(size, corridor_at(blank), corridor_at(now), start.0, start.1);
    lemma_count_at_one(size, open_node_at(blank, size), open_node_at(now, size), start.0, start.1);
    assert forall|p: (int, int)| #[trigger] open_cell(now, size, p) && !is_node(size, p) implies open_cell(
        now,
        size,
        link_ends(p).0,
    ) && open_cell(now, size, link_ends(p).1) by {
        if p != start {
            assert(now[p.0][p.1] == blank[p.0][p.1]);
        }
    }
}

/// A tree stays a tree when a wall node beside it is carved together with
/// the cell between: `between` is `before` with the cell `link` carved, and
/// `now` is `between` with the node `node` carved.
pub proof fn lemma_tree_grows(
    before: Vec<Vec<Tile>>,
    between: Vec<Vec<Tile>>,
    now: Vec<Vec<Tile>>,
    size: int,
    here: (int, int),
    link: (int, int),
    node: (int, int),
)
    requires
        is_node(size, here),
        is_node(size, node),
        inside(size, link.0, link.1),
        !is_node(size, link),
        link_ends(link) == (here, node) || link_ends(link) == (node, here),
        open_cell(before, size, here),
        !open_cell(before, size, node),
        between[link.0][link.1].tile_type != TileType::Wall,
        now[node.0][node.1].tile_type != TileType::Wall,
        forall|r: int, c: int|
            inside(size, r, c) && !(r == link.0 && c == link.1) ==> (#[trigger] between[r][c])
                == before[r][c],
        forall|r: int, c: int|
            inside(size, r, c) && !(r == node.0 && c == node.1) ==> (#[trigger] now[r][c])
                == between[r][c],
        tree_count(before, size),
        links_joined(before, size),
    ensures
        tree_count(now, size),
        links_joined(now, size),
{
    assert(!open_cell(before, size, link)) by {
        if open_cell(before, size, link) {
            assert(open_cell(before, size, link_ends(link).0));
            assert(open_cell(before, size, link_ends(link).1));
        }
    }
    assert forall|i: int, j: int|
        inside(size, i, j) && !(i == link.0 && j == link.1) implies #[trigger] corridor_at(between)(
        i,
        j,
    ) == corridor_at(before)(i, j) by {
        assert(between[i][j] == before[i][j]);
    }
    assert forall|i: int, j: int|
        inside(size, i, j) && !(i == link.0 && j == link.1) implies #[trigger] open_node_at(
        between,
        size,
    )(i, j) == open_node_at(before, size)(i, j) by {
        assert(between[i][j] == before[i][j]);
    }
    assert forall|i: int, j: int|
        inside(size, i, j) && !(i == node.0 && j == node.1) implies #[trigger] corridor_at(now)(
        i,
        j,
    ) == corridor_at(between)(i, j) by {
        assert(now[i][j] == between[i][j]);
    }
    assert forall|i: int, j: int|
        inside(size, i, j) && !(i == node.0 && j == node.1) implies #[trigger] open_node_at(
        now,
        size,
    )(i, j) == open_node_at(between, size)(i, j) by {
        assert(now[i][j] == between[i][j]);
    }
    assert(between[node.0][node.1] == before[node.0][node.1]);
    lemma_count_at_one(size, corridor_at(before), corridor_at(between), link.0, link.1);
    lemma_count_at_one(size, open_node_at(before, size), open_node_at(between, size), link.0, link.1);
    lemma_count_at_one(size, corridor_at(between), corridor_at(now), node.0, node.1);
    lemma_count_at_one(size, open_node_at(between, size), open_node_at(now, size), node.0, node.1);
    assert forall|p: (int, int)| #[trigger] open_cell(now, size, p) && !is_node(size, p) implies open_cell(
        now,
        size,
        link_ends(p).0,
    ) && open_cell(now, size, link_ends(p).1) by {
        let a = link_ends(p).0;
        let b = link_ends(p).1;
        assert(now[p.0][p.1] == between[p.0][p.1]);
        if p == link {
            assert(now[here.0][here.1] == between[here.0][here.1]);
            assert(between[here.0][here.1] == before[here.0][here.1]);
        } else {
            assert(between[p.0][p.1] == before[p.0][p.1]);
            assert(open_cell(before, size, p));
            assert(open_cell(before, size, a) && open_cell(before, size, b));
            if a != node {
                assert(now[a.0][a.1] == between[a.0][a.1]);
                if a != link {
                    assert(between[a.0][a.1] == before[a.0][a.1]);
                }
            }
            if b != node {
                assert(now[b.0][b.1] == between[b.0][b.1]);
                if b != link {
                    assert(between[b.0][b.1] == before[b.0][b.1]);
                }
            }
        }
    }
}

/// What carving a wall node and the cell between it and an open node does
/// to a maze: `between` is `before` with the cell `link` carved, and `now`
/// is `between` with the node `node` carved. Every cell that was open
/// stays open, no other cell is opened, the pillars stand, one wall less
/// is left, and the maze stays a tree.
pub proof fn lemma_pair_carved(
    before: Vec<Vec<Tile>>,
    between: Vec<Vec<Tile>>,
    now: Vec<Vec<Tile>>,
    size: int,
    here: (int, int),
    link: (int, int),
    node: (int, int),
)
    requires
        is_node(size, here),
        is_node(size, node),
        inside(size, link.0, link.1),
        !is_node(size, link),
        !(link.0 % 2 == 0 && link.1 % 2 == 0),
        link_ends(link) == (here, node) || link_ends(link) == (node, here),
        open_cell(before, size, here),
        before[node.0][node.1].tile_type == TileType::Wall,
        between[link.0][link.1].tile_type != TileType::Wall,
        now[node.0][node.1].tile_type != TileType::Wall,
        forall|r: int, c: int|
            inside(size, r, c) && !(r == link.0 && c == link.1) ==> (#[trigger] between[r][c])
                == before[r][c],
        forall|r: int, c: int|
            inside(size, r, c) && !(r == node.0 && c == node.1) ==> (#[trigger] now[r][c])
                == between[r][c],
        pillars(before, size),
        tree_count(before, size),
        links_joined(before, size),
    ensures
        pillars(now, size),
        tree_count(now, size),
        links_joined(now, size),
        count_where(now, size, walls()) < count_where(before, size, walls()),
        forall|p: (int, int)| #[trigger] open_cell(before, size, p) ==> open_cell(now, size, p),
        forall|p: (int, int)|
            #[trigger] open_cell(now, size, p) ==> open_cell(before, size, p) || p == link || p
                == node,
{
    assert forall|r: int, c: int|
        inside(size, r, c) && walls()(#[trigger] now[r][c]) implies walls()(before[r][c]) by {
        let t = between[r][c];
    }
    lemma_count_drops(before, now, size, walls(), node.0, node.1);
    assert forall|p: (int, int)| #[trigger] open_cell(before, size, p) implies open_cell(
        now,
        size,
        p,
    ) by {
        let t = between[p.0][p.1];
    }
    assert forall|p: (int, int)| #[trigger] open_cell(now, size, p) implies open_cell(
        before,
        size,
        p,
    ) || p == link || p == node by {
        let t = between[p.0][p.1];
    }
    assert forall|r: int, c: int|
        inside(size, r, c) && r % 2 == 0 && c % 2 == 0 implies (#[trigger] now[r][c]).tile_type
        == TileType::Wall by {
        let t = between[r][c];
    }
    lemma_tree_grows(before, between, now, size, here, link, node);
}

/// A node stays settled while cells are opened.
pub proof fn lemma_settled_stays(
    before: Vec<Vec<Tile>>,
    now: Vec<Vec<Tile>>,
    size: int,
    p: (int, int),
)
    requires
        settled(before, size, p),
        forall|q: (int, int)| #[trigger] open_cell(before, size, q) ==> open_cell(now, size, q),
    ensures
        settled(now, size, p),
{
    assert forall|way: int|
        0 <= way < 4 && is_node(size, #[trigger] maze_toward(p, way, 2)) implies open_cell(
        now,
        size,
        maze_toward(p, way, 2),
    ) by {
        assert(open_cell(before, size, maze_toward(p, way, 2)));
    }
}

/// Grids with the same terrain have the same open nodes and the same
/// pillars.
pub proof fn lemma_terrain_decides_maze(before: Vec<Vec<Tile>>, now: Vec<Vec<Tile>>, size: int)
    requires
        square(before, size),
        square(now, size),
        same_terrain(before, now),
    ensures
        pillars(before, size) ==> pillars(now, size),
        all_nodes_open(before, size) ==> all_nodes_open(now, size),
        tree_count(before, size) ==> tree_count(now, size),
{
    assert(cells_at(size, corridor_at(now)) =~= cells_at(size, corridor_at(before))) by {
        assert forall|k: int|
            cells_at(size, corridor_at(now)).contains(k) == cells_at(
                size,
                corridor_at(before),
            ).contains(k) by {
            if 0 <= k < size * size {
                assert(size == before.len());
                assert(size != 0) by (nonlinear_arith)
                    requires
                        0 <= k < size * size,
                ;
                lemma_cell_number(size, k);
                let r = k / size;
                let c = k % size;
                assert(before[r][c].tile_type == now[r][c].tile_type);
            }
        }
    }
    assert(cells_at(size, open_node_at(now, size)) =~= cells_at(size, open_node_at(before, size)))
        by {
        assert forall|k: int|
            cells_at(size, open_node_at(now, size)).contains(k) == cells_at(
                size,
                open_node_at(before, size),
            ).contains(k) by {
            if 0 <= k < size * size {
                assert(size == before.len());
                assert(size != 0) by (nonlinear_arith)
                    requires
                        0 <= k < size * size,
                ;
                lemma_cell_number(size, k);
                let r = k / size;
                let c = k % size;
                assert(before[r][c].tile_type == now[r][c].tile_type);
            }
        }
    }
    if pillars(before, size) {
        assert forall|r: int, c: int|
            inside(size, r, c) && r % 2 == 0 && c % 2 == 0 implies (
        #[trigger] now[r][c]).tile_type == TileType::Wall by {
            assert(before[r][c].tile_type == now[r][c].tile_type);
        }
    }
    if all_nodes_open(before, size) {
        assert forall|p: (int, int)| #[trigger] is_node(size, p) implies open_cell(now, size, p) by {
            assert(open_cell(before, size, p));
            assert(before[p.0][p.1].tile_type == now[p.0][p.1].tile_type);
        }
    }
}

/// A grid of walls of side `size`, to be carved by the heights of `field`.
pub fn maze_builder_init(seed: u64, size: usize, field: HeightMap) -> (m: MazeBuilder)
    ensures
        m.seed == seed,
        m.size == size,
        m.field == field,
        square(m.map, size as int),
        forall|r: int, c: int| inside(size as int, r, c) ==> (#[trigger] m.map[r][c]) == bare_wall(),
{
    let wall = Tile { tile_type: TileType::Wall, content: Content::Empty, elevation: 0 };
    MazeBuilder { seed, size, map: filled(size, wall), field }
}

/// Carving the cell `cell` beside the open cell `from` keeps every open
/// cell within reach of `root`.
pub proof fn lemma_carve_keeps_rooted(
    before: Vec<Vec<Tile>>,
    now: Vec<Vec<Tile>>,
    size: int,
    root: (int, int),
    from: (int, int),
    cell: (int, int),
)
    requires
        rooted(before, size, root),
        open_cell(before, size, from),
        adjacent(from, cell),
        open_cell(now, size, cell),
        forall|p: (int, int)| #[trigger] open_cell(before, size, p) ==> open_cell(now, size, p),
        forall|p: (int, int)|
            #[trigger] open_cell(now, size, p) && p != cell ==> open_cell(before, size, p),
    ensures
        rooted(now, size, root),
{
    reveal(rooted);
    assert forall|p: (int, int)| #[trigger] open_cell(now, size, p) implies linked(
        now,
        size,
        root,
        p,
    ) by {
        if p == cell {
            let path = choose|path: Seq<(int, int)>| #[trigger] leads(before, size, path, root, from);
            lemma_path_stays(before, now, size, path);
            lemma_path_extend(now, size, path, root, from, cell);
            assert(leads(now, size, path.push(cell), root, cell));
        } else {
            assert(open_cell(before, size, p));
            let path = choose|path: Seq<(int, int)>| #[trigger] leads(before, size, path, root, p);
            lemma_path_stays(before, now, size, path);
            assert(leads(now, size, path, root, p));
        }
    }
}

impl MazeBuilder {
    /// The side is odd, at least 3 and no larger than a world may be; the
    /// grid and the field of heights are squares of that side.
    pub open spec fn wf(self) -> bool {
        &&& 3 <= self.size <= MAX_WORLD_SIZE
        &&& self.size % 2 == 1
        &&& square(self.map, self.size as int)
        &&& self.field.wf()
        &&& self.field.size == self.size
    }

    /// Whether the cell in column `x` of row `y` lies off the first row and
    /// column and is a wall.
    pub fn is_wall(&self, x: usize, y: usize) -> (r: bool)
        requires
            self.wf(),
        ensures
            r == (0 < x < self.size && 0 < y < self.size && self.map[y as int][x as int].tile_type
                == TileType::Wall),
    {
        if 0 < x && x < self.size && 0 < y && y < self.size {
            self.map[y][x].tile_type == TileType::Wall
        } else {
            false
        }
    }

    /// The odd number at or beside `num`: the next one up where that stays
    /// below the side, else the next one down.
    pub fn check_odd(&self, num: usize) -> (r: usize)
        requires
            self.wf(),
            1 <= num < self.size - 1,
        ensures
            r % 2 == 1,
            1 <= r < self.size - 1,
            num % 2 == 1 ==> r == num,
            num % 2 == 0 ==> r == num + 1,
    {
        let mut num: usize = num;
        if num % 2 == 0 {
            if num + 1 < self.size {
                num += 1;
            } else if num - 1 > 0 {
                num -= 1;
            }
        }
        num
    }

    /// A cell with odd coordinates off the frame, drawn from the grid.
    pub fn random_point(&self, rng: &mut StdRng) -> (p: (usize, usize))
        requires
            self.wf(),
        ensures
            p.0 % 2 == 1 && p.1 % 2 == 1,
            1 <= p.0 < self.size - 1,
            1 <= p.1 < self.size - 1,
    {
        let x: usize = draw_between(rng, 1, self.size - 2);
        let y: usize = draw_between(rng, 1, self.size - 2);
        (self.check_odd(x), self.check_odd(y))
    }

    /// Carves the cell in column `x` of row `y`: gives it the terrain of
    /// its height. In a water band the cell also gets an amount of water
    /// and elevation 0; elsewhere its content and its elevation stay.
    pub fn set_path(
        &mut self,
        x: usize,
        y: usize,
        spawn_levels: &OxAgTileTypeOptions,
        rng: &mut StdRng,
    )
        requires
            old(self).wf(),
            x < old(self).size,
            y < old(self).size,
        ensures
            final(self).wf(),
            final(self).size == old(self).size,
            final(self).seed == old(self).seed,
            final(self).field == old(self).field,
            biomed(
                *spawn_levels,
                old(self).field.heights[y as int][x as int] as int,
                old(self).map[y as int][x as int],
                final(self).map[y as int][x as int],
            ),
            final(self).map[y as int][x as int].tile_type != TileType::Wall,
            forall|r: int, c: int|
                inside(old(self).size as int, r, c) && !(r == y && c == x) ==> (
                #[trigger] final(self).map[r][c]) == old(self).map[r][c],
    {
        let raw: i64 = self.field.heights[y][x];
        let tile = if spawn_levels.deep_water_level.contains(raw)
            || spawn_levels.shallow_water_level.contains(raw) {
            let tile_type = if spawn_levels.deep_water_level.contains(raw) {
                TileType::DeepWater
            } else {
                TileType::ShallowWater
            };
            let amount: usize = draw_below(rng, Content::Water(0).max());
            Tile { tile_type, content: Content::Water(amount), elevation: 0 }
        } else {
            let kept: Tile = self.map[y][x];
            Tile {
                tile_type: spawn_levels.classify(raw),
                content: kept.content,
                elevation: kept.elevation,
            }
        };
        proof {
            lemma_classify_covers(*spawn_levels, raw as int);
        }
        self.map[y][x] = tile;
    }

    /// Looks two cells from the cell in column `x` of row `y` in the
    /// direction numbered `way`: 0 for the next column but one, 1 for the
    /// column before the last, 2 for the next row but one, and any other
    /// number for the row before the last. Where that cell is still a wall,
    /// carves the cell between and that cell, and returns it.
    #[verifier::rlimit(30)]
    fn carve_toward(
        &mut self,
        x: usize,
        y: usize,
        way: u8,
        tiletype_options: &OxAgTileTypeOptions,
        rng: &mut StdRng,
        Ghost(root): Ghost<(int, int)>,
    ) -> (node: Option<(usize, usize)>)
        requires
            old(self).wf(),
            x % 2 == 1 && y % 2 == 1,
            1 <= x < old(self).size - 1,
            1 <= y < old(self).size - 1,
            framed(old(self).map, old(self).size as int),
            pillars(old(self).map, old(self).size as int),
            links_joined(old(self).map, old(self).size as int),
            tree_count(old(self).map, old(self).size as int),
            rooted(old(self).map, old(self).size as int, root),
            open_cell(old(self).map, old(self).size as int, (y as int, x as int)),
            maze_cells(
                *tiletype_options,
                old(self).field.heights,
                old(self).map,
                old(self).size as int,
            ),
        ensures
            final(self).wf(),
            final(self).size == old(self).size,
            final(self).seed == old(self).seed,
            final(self).field == old(self).field,
            framed(final(self).map, old(self).size as int),
            pillars(final(self).map, old(self).size as int),
            links_joined(final(self).map, old(self).size as int),
            tree_count(final(self).map, old(self).size as int),
            node is Some <==> is_node(
                old(self).size as int,
                maze_toward((y as int, x as int), way_of(way), 2),
            ) && !open_cell(
                old(self).map,
                old(self).size as int,
                maze_toward((y as int, x as int), way_of(way), 2),
            ),
            node matches Some((nx, ny)) ==> (ny as int, nx as int) == maze_toward(
                (y as int, x as int),
                way_of(way),
                2,
            ) && forall|p: (int, int)|
                #[trigger] open_cell(final(self).map, old(self).size as int, p) ==> open_cell(
                    old(self).map,
                    old(self).size as int,
                    p,
                ) || p == maze_toward((y as int, x as int), way_of(way), 1) || p == maze_toward(
                    (y as int, x as int),
                    way_of(way),
                    2,
                ),
            rooted(final(self).map, old(self).size as int, root),
            maze_cells(
                *tiletype_options,
                old(self).field.heights,
                final(self).map,
                old(self).size as int,
            ),
            forall|p: (int, int)|
                #[trigger] open_cell(old(self).map, old(self).size as int, p) ==> open_cell(
                    final(self).map,
                    old(self).size as int,
                    p,
                ),
            node is None ==> final(self).map == old(self).map,
            node matches Some((nx, ny)) ==> {
                &&& nx % 2 == 1 && ny % 2 == 1
                &&& 1 <= nx < old(self).size - 1
                &&& 1 <= ny < old(self).size - 1
                &&& open_cell(final(self).map, old(self).size as int, (ny as int, nx as int))
                &&& count_where(final(self).map, old(self).size as int, walls()) < count_where(
                    old(self).map,
                    old(self).size as int,
                    walls(),
                )
            },
    {
        let ghost n = self.size as int;
        let ghost before = self.map;
        let size: usize = self.size;
        let (nx, ny, lx, ly): (usize, usize, usize, usize) = if way == 0 {
            (x + 2, y, x + 1, y)
        } else if way == 1 {
            if x < 2 {
                return None;
            }
            (x - 2, y, x - 1, y)
        } else if way == 2 {
            (x, y + 2, x, y + 1)
        } else {
            if y < 2 {
                return None;
            }
            (x, y - 2, x, y - 1)
        };
        if !self.is_wall(nx, ny) {
            return None;
        }
        assert(nx % 2 == 1 && ny % 2 == 1);
        assert(nx < size - 1 && ny < size - 1) by {
            assert(size % 2 == 1);
            if nx == size - 1 {
                assert(nx % 2 == 0);
            }
            if ny == size - 1 {
                assert(ny % 2 == 0);
            }
        }
        self.carve_cell(x, y, lx, ly, tiletype_options, rng, Ghost(root));
        let ghost between = self.map;
        self.carve_cell(lx, ly, nx, ny, tiletype_options, rng, Ghost(root));
        proof {
            lemma_pair_carved(
                before,
                between,
                self.map,
                n,
                (y as int, x as int),
                (ly as int, lx as int),
                (ny as int, nx as int),
            );
        }
        Some((nx, ny))
    }

    /// Carves the cell in column `x` of row `y`, which lies beside the
    /// open cell in column `from_x` of row `from_y`.
    fn carve_cell(
        &mut self,
        from_x: usize,
        from_y: usize,
        x: usize,
        y: usize,
        tiletype_options: &OxAgTileTypeOptions,
        rng: &mut StdRng,
        Ghost(root): Ghost<(int, int)>,
    )
        requires
            old(self).wf(),
            1 <= x < old(self).size - 1,
            1 <= y < old(self).size - 1,
            adjacent((from_y as int, from_x as int), (y as int, x as int)),
            open_cell(old(self).map, old(self).size as int, (from_y as int, from_x as int)),
            framed(old(self).map, old(self).size as int),
            rooted(old(self).map, old(self).size as int, root),
            maze_cells(
                *tiletype_options,
                old(self).field.heights,
                old(self).map,
                old(self).size as int,
            ),
        ensures
            final(self).wf(),
            final(self).size == old(self).size,
            final(self).seed == old(self).seed,
            final(self).field == old(self).field,
            framed(final(self).map, old(self).size as int),
            rooted(final(self).map, old(self).size as int, root),
            maze_cells(
                *tiletype_options,
                old(self).field.heights,
                final(self).map,
                old(self).size as int,
            ),
            open_cell(final(self).map, old(self).size as int, (y as int, x as int)),
            final(self).map[y as int][x as int].tile_type != TileType::Wall,
            forall|r: int, c: int|
                inside(old(self).size as int, r, c) && !(r == y && c == x) ==> (
                #[trigger] final(self).map[r][c]) == old(self).map[r][c],
    {
        let ghost n = self.size as int;
        let ghost before = self.map;
        let ghost from = (from_y as int, from_x as int);
        let ghost cell = (y as int, x as int);
        self.set_path(x, y, tiletype_options, rng);
        proof {
            assert forall|p: (int, int)| #[trigger] open_cell(before, n, p) implies open_cell(
                self.map,
                n,
                p,
            ) by {}
            assert forall|p: (int, int)|
                #[trigger] open_cell(self.map, n, p) && p != cell implies open_cell(
                before,
                n,
                p,
            ) by {}
            lemma_carve_keeps_rooted(before, self.map, n, root, from, cell);
        }
    }

    /// Looks two cells from the cell in column `x` of row `y` in each of the
    /// four directions, in an order drawn anew, and carves toward the first
    /// cell found that is still a wall. Returns that cell, or `None` where
    /// every node two cells away is open.
    fn carve_from(
        &mut self,
        x: usize,
        y: usize,
        tiletype_options: &OxAgTileTypeOptions,
        rng: &mut StdRng,
        Ghost(root): Ghost<(int, int)>,
    ) -> (node: Option<(usize, usize)>)
        requires
            old(self).wf(),
            x % 2 == 1 && y % 2 == 1,
            1 <= x < old(self).size - 1,
            1 <= y < old(self).size - 1,
            framed(old(self).map, old(self).size as int),
            pillars(old(self).map, old(self).size as int),
            links_joined(old(self).map, old(self).size as int),
            tree_count(old(self).map, old(self).size as int),
            rooted(old(self).map, old(self).size as int, root),
            open_cell(old(self).map, old(self).size as int, (y as int, x as int)),
            maze_cells(
                *tiletype_options,
                old(self).field.heights,
                old(self).map,
                old(self).size as int,
            ),
        ensures
            final(self).wf(),
            final(self).size == old(self).size,
            final(self).seed == old(self).seed,
            final(self).field == old(self).field,
            framed(final(self).map, old(self).size as int),
            pillars(final(self).map, old(self).size as int),
            links_joined(final(self).map, old(self).size as int),
            tree_count(final(self).map, old(self).size as int),
            rooted(final(self).map, old(self).size as int, root),
            maze_cells(
                *tiletype_options,
                old(self).field.heights,
                final(self).map,
                old(self).size as int,
            ),
            forall|p: (int, int)|
                #[trigger] open_cell(old(self).map, old(self).size as int, p) ==> open_cell(
                    final(self).map,
                    old(self).size as int,
                    p,
                ),
            node is None ==> final(self).map == old(self).map && settled(
                old(self).map,
                old(self).size as int,
                (y as int, x as int),
            ),
            node matches Some((nx, ny)) ==> {
                &&& is_node(old(self).size as int, (ny as int, nx as int))
                &&& open_cell(final(self).map, old(self).size as int, (ny as int, nx as int))
                &&& count_where(final(self).map, old(self).size as int, walls()) < count_where(
                    old(self).map,
                    old(self).size as int,
                    walls(),
                )
                &&& forall|p: (int, int)|
                    #[trigger] open_cell(final(self).map, old(self).size as int, p) ==> open_cell(
                        old(self).map,
                        old(self).size as int,
                        p,
                    ) || p == (ny as int, nx as int) || !is_node(old(self).size as int, p)
            },
    {
        let ghost n = self.size as int;
        let ghost here = (y as int, x as int);
        let ghost before = self.map;
        let mut direction: Vec<u8> = vec![0, 1, 2, 3];
        assert(direction@ =~= seq![0u8, 1u8, 2u8, 3u8]);
        shuffle(rng, &mut direction);
        let ghost shuffled = direction@;
        proof {
            lemma_shuffled_has_all(shuffled);
        }
        while direction.len() > 0
            invariant
                self.wf(),
                n == self.size == old(self).size,
                self.seed == old(self).seed,
                self.field == old(self).field,
                self.map == before,
                before == old(self).map,
                here == (y as int, x as int),
                x % 2 == 1 && y % 2 == 1,
                1 <= x < self.size - 1,
                1 <= y < self.size - 1,
                framed(self.map, n),
                pillars(self.map, n),
                links_joined(self.map, n),
                tree_count(self.map, n),
                rooted(self.map, n, root),
                open_cell(self.map, n, here),
                maze_cells(*tiletype_options, self.field.heights, self.map, n),
                shuffled.len() == 4,
                direction.len() <= 4,
                direction@ == shuffled.take(direction.len() as int),
                forall|i: int|
                    direction.len() <= i < 4 && is_node(
                        n,
                        maze_toward(here, way_of(#[trigger] shuffled[i]), 2),
                    ) ==> open_cell(before, n, maze_toward(here, way_of(shuffled[i]), 2)),
            decreases direction.len(),
        {
            let ghost left = direction.len() - 1;
            let way: u8 = direction.pop().unwrap();
            assert(way == shuffled[left]);
            assert(direction@ =~= shuffled.take(left));
            match self.carve_toward(x, y, way, tiletype_options, rng, Ghost(root)) {
                Some(node) => {
                    proof {
                        let link = maze_toward(here, way_of(way), 1);
                        assert(!is_node(n, link));
                    }
                    return Some(node);
                },
                None => {},
            }
        }
        proof {
            assert forall|way: int|
                0 <= way < 4 && is_node(n, #[trigger] maze_toward(here, way, 2)) implies open_cell(
                before,
                n,
                maze_toward(here, way, 2),
            ) by {
                assert(stands_for(shuffled, way));
                let i = choose|i: int| 0 <= i < shuffled.len() && way_of(#[trigger] shuffled[i]) == way;
                assert(way_of(shuffled[i]) == way);
            }
        }
        None
    }

    /// Carves the maze from the cell in column `start_x` of row `start_y`
    /// by a depth-first walk: from the cell in hand it looks two cells
    /// away in each of the four directions, in an order drawn anew each
    /// time; at the first such cell that is still a wall, it carves the
    /// cell between and that cell, and goes on from there; where there is
    /// none, it goes back to the cell it came from.
    ///
    /// When the walk ends, every node is open, the open cells hang together,
    /// and the frame and the cells in an even row and column are walls.
    pub fn maze_builder_loop(
        &mut self,
        start_x: usize,
        start_y: usize,
        rng: &mut StdRng,
        tiletype_options: &OxAgTileTypeOptions,
    )
        requires
            old(self).wf(),
            start_x % 2 == 1 && start_y % 2 == 1,
            1 <= start_x < old(self).size - 1,
            1 <= start_y < old(self).size - 1,
            forall|r: int, c: int|
                inside(old(self).size as int, r, c) ==> (#[trigger] old(self).map[r][c])
                    == bare_wall(),
        ensures
            final(self).wf(),
            final(self).size == old(self).size,
            final(self).seed == old(self).seed,
            final(self).field == old(self).field,
            connected(final(self).map, old(self).size as int),
            framed(final(self).map, old(self).size as int),
            pillars(final(self).map, old(self).size as int),
            all_nodes_open(final(self).map, old(self).size as int),
            links_joined(final(self).map, old(self).size as int),
            tree_count(final(self).map, old(self).size as int),
            open_cell(final(self).map, old(self).size as int, (start_y as int, start_x as int)),
            maze_cells(
                *tiletype_options,
                old(self).field.heights,
                final(self).map,
                old(self).size as int,
            ),
    {
        let size: usize = self.size;
        let ghost n = size as int;
        let ghost root = (start_y as int, start_x as int);
        let ghost blank = self.map;
        self.set_path(start_x, start_y, tiletype_options, rng);
        proof {
            assert forall|p: (int, int)| #[trigger] open_cell(self.map, n, p) implies linked(
                self.map,
                n,
                root,
                p,
            ) by {
                assert(p == root);
                lemma_path_of_one(self.map, n, root);
            }
            assert(rooted(self.map, n, root)) by {
                reveal(rooted);
            }
            lemma_tree_of_one(blank, self.map, n, root);
        }
        let mut stack: Vec<(usize, usize)> = Vec::new();
        stack.push((start_x, start_y));
        proof {
            assert forall|p: (int, int)|
                is_node(n, p) && #[trigger] open_cell(self.map, n, p) implies on_stack(stack@, p)
                || settled(self.map, n, p) by {
                assert(p == root);
                assert(stack@[0].0 == p.1 && stack@[0].1 == p.0);
            }
        }
        while stack.len() > 0
            invariant
                self.wf(),
                size == self.size == old(self).size,
                n == size,
                self.seed == old(self).seed,
                self.field == old(self).field,
                framed(self.map, n),
                pillars(self.map, n),
                links_joined(self.map, n),
                tree_count(self.map, n),
                rooted(self.map, n, root),
                open_cell(self.map, n, root),
                is_node(n, root),
                maze_cells(*tiletype_options, self.field.heights, self.map, n),
                forall|i: int|
                    0 <= i < stack.len() ==> {
                        &&& (#[trigger] stack[i]).0 % 2 == 1
                        &&& stack[i].1 % 2 == 1
                        &&& 1 <= stack[i].0 < size - 1
                        &&& 1 <= stack[i].1 < size - 1
                        &&& open_cell(self.map, n, (stack[i].1 as int, stack[i].0 as int))
                    },
                forall|p: (int, int)|
                    is_node(n, p) && #[trigger] open_cell(self.map, n, p) ==> on_stack(stack@, p)
                        || settled(self.map, n, p),
            decreases count_where(self.map, n, walls()), stack.len(),
        {
            let ghost whole = stack@;
            let (x, y) = stack.pop().unwrap();
            let ghost popped = stack@;
            let ghost before = self.map;
            let ghost here = (y as int, x as int);
            match self.carve_from(x, y, tiletype_options, rng, Ghost(root)) {
                Some(node) => {
                    stack.push((x, y));
                    stack.push(node);
                    proof {
                        let spot = (node.1 as int, node.0 as int);
                        assert(stack@.drop_last() =~= whole);
                        assert forall|p: (int, int)|
                            is_node(n, p) && #[trigger] open_cell(
                                self.map,
                                n,
                                p,
                            ) implies on_stack(stack@, p) || settled(self.map, n, p) by {
                            if p == spot {
                                let last = stack@.len() - 1;
                                assert(stack@[last].0 == p.1 && stack@[last].1 == p.0);
                            } else {
                                assert(open_cell(before, n, p));
                                if on_stack(whole, p) {
                                    let i = choose|i: int|
                                        0 <= i < whole.len() && (#[trigger] whole[i]).0 == p.1
                                            && whole[i].1 == p.0;
                                    assert(stack@[i] == whole[i]);
                                } else {
                                    lemma_settled_stays(before, self.map, n, p);
                                }
                            }
                        }
                    }
                },
                None => {
                    proof {
                        assert forall|p: (int, int)|
                            is_node(n, p) && #[trigger] open_cell(
                                self.map,
                                n,
                                p,
                            ) implies on_stack(stack@, p) || settled(self.map, n, p) by {
                            if p == here {
                            } else if on_stack(whole, p) {
                                let i = choose|i: int|
                                    0 <= i < whole.len() && (#[trigger] whole[i]).0 == p.1
                                        && whole[i].1 == p.0;
                                assert(i < popped.len());
                                assert(popped[i] == whole[i]);
                            }
                        }
                    }
                },
            }
        }
        proof {
            lemma_rooted_connected(self.map, n, root);
            assert forall|p: (int, int)| #[trigger] is_node(n, p) implies open_cell(
                self.map,
                n,
                p,
            ) by {
                assert forall|q: (int, int)|
                    is_node(n, q) && #[trigger] open_cell(self.map, n, q) implies settled(
                    self.map,
                    n,
                    q,
                ) by {
                    assert(!on_stack(stack@, q));
                }
                lemma_nodes_all_open(self.map, n, root, p);
            }
        }
    }

    /// A cell off the frame that is not a wall, drawn from the grid; `None`
    /// where there is none.
    pub fn random_not_street(&self, rng: &mut StdRng) -> (at: Option<(usize, usize)>)
        requires
            self.wf(),
        ensures
            at matches Some((x, y)) ==> 1 <= x < self.size - 1 && 1 <= y < self.size - 1
                && self.map[y as int][x as int].tile_type != TileType::Wall,
            at is None <==> forall|r: int, c: int|
                1 <= r < self.size - 1 && 1 <= c < self.size - 1 ==> (
                #[trigger] self.map[r][c]).tile_type == TileType::Wall,
    {
        match pick_cell(&self.map, None, Wanted::Corridor, 1, self.size - 1, rng) {
            Some((row, col)) => {
                assert(wanted_at(self.map, None, Wanted::Corridor, row as int, col as int));
                Some((col, row))
            },
            None => {
                assert forall|r: int, c: int|
                    1 <= r < self.size - 1 && 1 <= c < self.size - 1 implies (
                #[trigger] self.map[r][c]).tile_type == TileType::Wall by {
                    assert(!wanted_at(self.map, None, Wanted::Corridor, r, c));
                }
                None
            },
        }
    }

    /// Sets one jolly block on a cell drawn by `random_not_street`, if
    /// there is one.
    pub fn spawn_end(&mut self, rng: &mut StdRng)
        requires
            old(self).wf(),
        ensures
            final(self).wf(),
            final(self).size == old(self).size,
            final(self).seed == old(self).seed,
            final(self).field == old(self).field,
            jollied_only(old(self).map, final(self).map, old(self).size as int),
            (exists|r: int, c: int|
                1 <= r < old(self).size - 1 && 1 <= c < old(self).size - 1 && (
                #[trigger] old(self).map[r][c]).tile_type != TileType::Wall) ==> has_jolly(
                final(self).map,
                old(self).size as int,
            ),
            count_where(final(self).map, old(self).size as int, jolly()) <= count_where(
                old(self).map,
                old(self).size as int,
                jolly(),
            ) + 1,
    {
        match self.random_not_street(rng) {
            Some((x, y)) => {
                self.map[y][x].content = Content::JollyBlock(1);
                proof {
                    lemma_count_one_cell(
                        old(self).map,
                        self.map,
                        self.size as int,
                        jolly(),
                        y as int,
                        x as int,
                    );
                }
            },
            None => {},
        }
    }

    /// Sets `blocks` jolly blocks, one after the other, each on a cell drawn
    /// by `random_not_street`.
    ///
    /// Every cell is left as it was or, if it is no wall, carries one jolly
    /// block; no more than `blocks` cells more than before carry one; and
    /// some cell carries one where a block is asked for and a cell off the
    /// frame is no wall.
    pub fn scatter_jolly(&mut self, blocks: usize, rng: &mut StdRng)
        requires
            old(self).wf(),
        ensures
            final(self).wf(),
            final(self).size == old(self).size,
            final(self).seed == old(self).seed,
            final(self).field == old(self).field,
            jollied_only(old(self).map, final(self).map, old(self).size as int),
            count_where(final(self).map, old(self).size as int, jolly()) <= count_where(
                old(self).map,
                old(self).size as int,
                jolly(),
            ) + blocks,
            blocks == 0 ==> final(self).map == old(self).map,
            blocks > 0 && (exists|r: int, c: int|
                1 <= r < old(self).size - 1 && 1 <= c < old(self).size - 1 && (
                #[trigger] old(self).map[r][c]).tile_type != TileType::Wall) ==> has_jolly(
                final(self).map,
                old(self).size as int,
            ),
    {
        let size: usize = self.size;
        let ghost origin = self.map;
        let ghost mut witness: (int, int) = (0, 0);
        let mut set: usize = 0;
        while set < blocks
            invariant
                self.wf(),
                size == self.size == old(self).size,
                self.seed == old(self).seed,
                self.field == old(self).field,
                origin == old(self).map,
                jollied_only(origin, self.map, size as int),
                set <= blocks,
                set == 0 ==> self.map == origin,
                count_where(self.map, size as int, jolly()) <= count_where(
                    origin,
                    size as int,
                    jolly(),
                ) + set,
                set > 0 && (exists|r: int, c: int|
                    1 <= r < size - 1 && 1 <= c < size - 1 && (
                    #[trigger] origin[r][c]).tile_type != TileType::Wall) ==> inside(
                    size as int,
                    witness.0,
                    witness.1,
                ) && self.map[witness.0][witness.1].content == Content::JollyBlock(1),
            decreases blocks - set,
        {
            let ghost before = self.map;
            self.spawn_end(rng);
            proof {
                assert forall|r: int, c: int| inside(size as int, r, c) implies jollied(
                    origin[r][c],
                    #[trigger] self.map[r][c],
                ) by {
                    assert(jollied(origin[r][c], before[r][c]));
                    assert(jollied(before[r][c], self.map[r][c]));
                }
                if exists|r: int, c: int|
                    1 <= r < size - 1 && 1 <= c < size - 1 && (
                    #[trigger] origin[r][c]).tile_type != TileType::Wall {
                    if set == 0 {
                        witness = choose|r: int, c: int|
                            inside(size as int, r, c) && (#[trigger] self.map[r][c]).content
                                == Content::JollyBlock(1);
                    } else {
                        assert(jollied(
                            before[witness.0][witness.1],
                            self.map[witness.0][witness.1],
                        ));
                    }
                }
            }
            set += 1;
        }
    }

    /// Scatters jolly blocks over the corridors: as many as a number drawn
    /// from 0 up to a tenth of the side, set as `scatter_jolly` sets them.
    pub fn teleport_spawner(&mut self, rng: &mut StdRng)
        requires
            old(self).wf(),
        ensures
            final(self).wf(),
            final(self).size == old(self).size,
            final(self).seed == old(self).seed,
            final(self).field == old(self).field,
            jollied_only(old(self).map, final(self).map, old(self).size as int),
            count_where(final(self).map, old(self).size as int, jolly()) <= count_where(
                old(self).map,
                old(self).size as int,
                jolly(),
            ) + old(self).size / 10,
    {
        let blocks: usize = draw_between(rng, 0, self.size / 10);
        self.scatter_jolly(blocks, rng);
    }

    /// Builds the maze: carves the corridors from a cell drawn by
    /// `random_point`, scatters jolly blocks over them, no more than a
    /// tenth of the side, and sets one more as the goal.
    pub fn builder(self, tiletype_options: &OxAgTileTypeOptions, rng: &mut StdRng) -> (mat:
        TileMat)
        requires
            self.wf(),
            forall|r: int, c: int|
                inside(self.size as int, r, c) ==> (#[trigger] self.map[r][c]) == bare_wall(),
        ensures
            mat.wf(),
            mat.size == self.size,
            mat.seed == self.seed,
            !mat.with_info,
            connected(mat.map, self.size as int),
            framed(mat.map, self.size as int),
            pillars(mat.map, self.size as int),
            all_nodes_open(mat.map, self.size as int),
            tree_count(mat.map, self.size as int),
            has_jolly(mat.map, self.size as int),
            count_where(mat.map, self.size as int, jolly()) <= self.size / 10 + 1,
            fits_but_jolly(mat.map),
            walls_bare(mat.map, self.size as int),
            jolly_whole(mat.map, self.size as int),
            forall|r: int, c: int|
                inside(self.size as int, r, c) ==> (#[trigger] mat.map[r][c]).tile_type
                    == TileType::Wall || mat.map[r][c].tile_type == tiletype_options.classify_spec(
                    self.field.heights[r][c] as int,
                ),
    {
        let mut maze = self;
        let size: usize = maze.size;
        let ghost n = size as int;
        let (start_x, start_y) = maze.random_point(rng);
        maze.maze_builder_loop(start_x, start_y, rng, tiletype_options);
        let ghost carved = maze.map;
        proof {
            assert(cells_where(carved, n, jolly()) =~= Set::empty()) by {
                assert forall|k: int| !cells_where(carved, n, jolly()).contains(k) by {
                    if 0 <= k < n * n {
                        lemma_cell_number(n, k);
                        let t = carved[k / n][k % n];
                    }
                }
            }
        }
        maze.teleport_spawner(rng);
        let ghost scattered = maze.map;
        maze.spawn_end(rng);
        proof {
            assert(carved[start_y as int][start_x as int].tile_type != TileType::Wall);
            assert(jollied(
                carved[start_y as int][start_x as int],
                scattered[start_y as int][start_x as int],
            ));
            assert(scattered[start_y as int][start_x as int].tile_type != TileType::Wall);
            assert forall|r: int, c: int| inside(n, r, c) implies jollied(
                carved[r][c],
                #[trigger] maze.map[r][c],
            ) by {
                assert(jollied(carved[r][c], scattered[r][c]));
                assert(jollied(scattered[r][c], maze.map[r][c]));
            }
            assert(same_terrain(carved, maze.map));
            lemma_terrain_decides(carved, maze.map, n);
            lemma_terrain_decides_maze(carved, maze.map, n);
            assert forall|r: int, c: int|
                0 <= r < maze.map.len() && 0 <= c < maze.map[r].len() && !((
                #[trigger] maze.map[r][c]).content is Empty)
                    && !(maze.map[r][c].content is JollyBlock) implies maze.map[r][c].tile_type.can_hold_spec(
                maze.map[r][c].content,
            ) by {
                assert(inside(n, r, c));
                assert(jollied(carved[r][c], maze.map[r][c]));
                assert(maze.map[r][c] == carved[r][c]);
                lemma_classify_covers(*tiletype_options, self.field.heights[r][c] as int);
            }
            assert forall|r: int, c: int| inside(n, r, c) implies (
            #[trigger] maze.map[r][c]).tile_type == TileType::Wall || maze.map[r][c].tile_type
                == tiletype_options.classify_spec(self.field.heights[r][c] as int) by {
                assert(jollied(carved[r][c], maze.map[r][c]));
            }
            assert forall|r: int, c: int|
                inside(n, r, c) && (#[trigger] maze.map[r][c]).tile_type
                    == TileType::Wall implies maze.map[r][c].content is Empty by {
                assert(jollied(carved[r][c], maze.map[r][c]));
                lemma_classify_covers(*tiletype_options, self.field.heights[r][c] as int);
            }
            assert forall|r: int, c: int|
                inside(n, r, c) && (#[trigger] maze.map[r][c]).content
                    is JollyBlock implies maze.map[r][c].content == Content::JollyBlock(1) by {
                assert(jollied(carved[r][c], maze.map[r][c]));
                let t = carved[r][c];
            }
        }
        TileMat { map: maze.map, with_info: false, seed: maze.seed, size }
    }
}

} // verus!
