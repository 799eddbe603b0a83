//! Paths over the cells of a grid that are not walls, and what it means for
//! those cells to hang together.

use vstd::prelude::*;
use crate::world::tile::{Tile, TileType};
use crate::world_generator::spawning_tools::grid::{inside, same_terrain, square};

verus! {

/// The cell `p` lies on the grid and is not a wall.
pub open spec fn open_cell(map: Vec<Vec<Tile>>, size: int, p: (int, int)) -> bool {
    inside(size, p.0, p.1) && map[p.0][p.1].tile_type != TileType::Wall
}

/// The cells `a` and `b` share a side.
pub open spec fn adjacent(a: (int, int), b: (int, int)) -> bool {
    ||| a.0 == b.0 && (a.1 == b.1 + 1 || b.1 == a.1 + 1)
    ||| a.1 == b.1 && (a.0 == b.0 + 1 || b.0 == a.0 + 1)
}

/// `path` leads over open cells, each sharing a side with the next.
#[verifier::opaque]
pub open spec fn is_path(map: Vec<Vec<Tile>>, size: int, path: Seq<(int, int)>) -> bool {
    &&& path.len() > 0
    &&& forall|i: int| 0 <= i < path.len() ==> open_cell(map, size, #[trigger] path[i])
    &&& forall|i: int| 0 <= i < path.len() - 1 ==> adjacent(#[trigger] path[i], path[i + 1])
}

/// `path` is a path from `a` to `b`.
pub open spec fn leads(
    map: Vec<Vec<Tile>>,
    size: int,
    path: Seq<(int, int)>,
    a: (int, int),
    b: (int, int),
) -> bool {
    is_path(map, size, path) && path[0] == a && path.last() == b
}

/// Some path leads from `a` to `b`.
pub open spec fn linked(map: Vec<Vec<Tile>>, size: int, a: (int, int), b: (int, int)) -> bool {
    exists|path: Seq<(int, int)>| #[trigger] leads(map, size, path, a, b)
}

/// Every open cell can be reached from `root`.
#[verifier::opaque]
pub open spec fn rooted(map: Vec<Vec<Tile>>, size: int, root: (int, int)) -> bool {
    forall|p: (int, int)| #[trigger] open_cell(map, size, p) ==> linked(map, size, root, p)
}

/// Every open cell can be reached from every other: the cells that are not
/// walls are 4-connected.
pub open spec fn connected(map: Vec<Vec<Tile>>, size: int) -> bool {
    forall|a: (int, int), b: (int, int)|
        #![trigger open_cell(map, size, a), open_cell(map, size, b)]
        open_cell(map, size, a) && open_cell(map, size, b) ==> linked(map, size, a, b)
}

/// The outermost rows and columns of the grid are all walls.
pub open spec fn framed(map: Vec<Vec<Tile>>, size: int) -> bool {
    forall|r: int, c: int|
        inside(size, r, c) && (r == 0 || c == 0 || r == size - 1 || c == size - 1) ==> (
        #[trigger] map[r][c]).tile_type == TileType::Wall
}

/// A path stays a path when it is walked backwards.
pub proof fn lemma_path_reverse(
    map: Vec<Vec<Tile>>,
    size: int,
    path: Seq<(int, int)>,
    a: (int, int),
    b: (int, int),
)
    requires
        leads(map, size, path, a, b),
    ensures
        leads(map, size, path.reverse(), b, a),
{
    reveal(is_path);
    let back = path.reverse();
    assert forall|i: int| 0 <= i < back.len() implies open_cell(map, size, #[trigger] back[i]) by {
        assert(back[i] == path[path.len() - 1 - i]);
    }
    assert forall|i: int| 0 <= i < back.len() - 1 implies adjacent(
        #[trigger] back[i],
        back[i + 1],
    ) by {
        assert(back[i] == path[path.len() - 1 - i]);
        assert(back[i + 1] == path[path.len() - 2 - i]);
        assert(adjacent(path[path.len() - 2 - i], path[path.len() - 2 - i + 1]));
    }
}

/// A path that ends where another starts goes on into it.
pub proof fn lemma_path_join(
    map: Vec<Vec<Tile>>,
    size: int,
    first: Seq<(int, int)>,
    second: Seq<(int, int)>,
    a: (int, int),
    b: (int, int),
    c: (int, int),
)
    requires
        leads(map, size, first, a, b),
        leads(map, size, second, b, c),
    ensures
        leads(map, size, first + second.skip(1), a, c),
{
    reveal(is_path);
    let whole = first + second.skip(1);
    assert forall|i: int| 0 <= i < whole.len() implies open_cell(map, size, #[trigger] whole[i]) by {
        if i < first.len() {
            assert(whole[i] == first[i]);
        } else {
            assert(whole[i] == second[i - first.len() + 1]);
        }
    }
    assert forall|i: int| 0 <= i < whole.len() - 1 implies adjacent(
        #[trigger] whole[i],
        whole[i + 1],
    ) by {
        if i + 1 < first.len() {
            assert(whole[i] == first[i] && whole[i + 1] == first[i + 1]);
        } else if i + 1 == first.len() {
            assert(whole[i] == first[i]);
            assert(whole[i + 1] == second[1]);
            assert(first[i] == second[0]);
            assert(adjacent(second[0int], second[0int + 1]));
        } else {
            let j = i - first.len() + 1;
            assert(whole[i] == second[j] && whole[i + 1] == second[j + 1]);
        }
    }
    if second.len() == 1 {
        assert(whole =~= first);
    } else {
        assert(whole.last() == second.last());
    }
}

/// A path goes one cell further to an open cell beside its end.
pub proof fn lemma_path_extend(
    map: Vec<Vec<Tile>>,
    size: int,
    path: Seq<(int, int)>,
    a: (int, int),
    b: (int, int),
    c: (int, int),
)
    requires
        leads(map, size, path, a, b),
        open_cell(map, size, c),
        adjacent(b, c),
    ensures
        leads(map, size, path.push(c), a, c),
{
    reveal(is_path);
    let longer = path.push(c);
    assert forall|i: int| 0 <= i < longer.len() implies open_cell(
        map,
        size,
        #[trigger] longer[i],
    ) by {
        if i < path.len() {
            assert(longer[i] == path[i]);
        }
    }
    assert forall|i: int| 0 <= i < longer.len() - 1 implies adjacent(
        #[trigger] longer[i],
        longer[i + 1],
    ) by {
        if i + 1 < path.len() {
            assert(longer[i] == path[i] && longer[i + 1] == path[i + 1]);
        } else {
            assert(longer[i] == path[i]);
        }
    }
}

/// A path stays a path on a grid that has every open cell of the old one.
pub proof fn lemma_path_stays(
    before: Vec<Vec<Tile>>,
    now: Vec<Vec<Tile>>,
    size: int,
    path: Seq<(int, int)>,
)
    requires
        is_path(before, size, path),
        forall|p: (int, int)| #[trigger] open_cell(before, size, p) ==> open_cell(now, size, p),
    ensures
        is_path(now, size, path),
{
    reveal(is_path);
    assert forall|i: int| 0 <= i < path.len() implies open_cell(now, size, #[trigger] path[i]) by {
        assert(open_cell(before, size, path[i]));
    }
}

/// Where every open cell can be reached from one cell, every open cell can
/// be reached from every other.
pub proof fn lemma_rooted_connected(map: Vec<Vec<Tile>>, size: int, root: (int, int))
    requires
        rooted(map, size, root),
    ensures
        connected(map, size),
{
    reveal(rooted);
    assert forall|a: (int, int), b: (int, int)|
        #![trigger open_cell(map, size, a), open_cell(map, size, b)]
        open_cell(map, size, a) && open_cell(map, size, b) implies linked(map, size, a, b) by {
        let to_a = choose|path: Seq<(int, int)>| #[trigger] leads(map, size, path, root, a);
        let to_b = choose|path: Seq<(int, int)>| #[trigger] leads(map, size, path, root, b);
        lemma_path_reverse(map, size, to_a, root, a);
        lemma_path_join(map, size, to_a.reverse(), to_b, a, root, b);
        assert(leads(map, size, to_a.reverse() + to_b.skip(1), a, b));
    }
}

/// A single open cell is a path from itself to itself.
pub proof fn lemma_path_of_one(map: Vec<Vec<Tile>>, size: int, p: (int, int))
    requires
        open_cell(map, size, p),
    ensures
        leads(map, size, seq![p], p, p),
        linked(map, size, p, p),
{
    reveal(is_path);
    assert(leads(map, size, seq![p], p, p));
}

/// Grids with the same terrain have the same paths, so one hangs together
/// if the other does, and is framed if the other is.
pub proof fn lemma_terrain_decides(before: Vec<Vec<Tile>>, now: Vec<Vec<Tile>>, size: int)
    requires
        square(before, size),
        square(now, size),
        same_terrain(before, now),
    ensures
        connected(before, size) ==> connected(now, size),
        framed(before, size) ==> framed(now, size),
{
    assert forall|p: (int, int)| #[trigger] open_cell(before, size, p) implies open_cell(
        now,
        size,
        p,
    ) by {
        assert(before[p.0][p.1].tile_type == now[p.0][p.1].tile_type);
    }
    if connected(before, size) {
        assert forall|a: (int, int), b: (int, int)|
            #![trigger open_cell(now, size, a), open_cell(now, size, b)]
            open_cell(now, size, a) && open_cell(now, size, b) implies linked(now, size, a, b) by {
            assert(before[a.0][a.1].tile_type == now[a.0][a.1].tile_type);
            assert(before[b.0][b.1].tile_type == now[b.0][b.1].tile_type);
            assert(open_cell(before, size, a) && open_cell(before, size, b));
            let path = choose|path: Seq<(int, int)>| #[trigger] leads(before, size, path, a, b);
            lemma_path_stays(before, now, size, path);
            assert(leads(now, size, path, a, b));
        }
    }
    if framed(before, size) {
        assert forall|r: int, c: int|
            inside(size, r, c) && (r == 0 || c == 0 || r == size - 1 || c == size - 1) implies (
            #[trigger] now[r][c]).tile_type == TileType::Wall by {
            assert(before[r][c].tile_type == now[r][c].tile_type);
        }
    }
}

} // verus!
