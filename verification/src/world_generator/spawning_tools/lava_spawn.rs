//! Lava lakes: disks of lava poured on grass and hills.

use vstd::prelude::*;
use rand::rngs::StdRng;
use crate::world::tile::{Tile, TileType};
use crate::world_generator::spawning_tools::circle_spawn::{
    clipped_radius, immune, in_disk, lemma_core_in_disk, spawn_circle, stamped, stamps_only,
    Target,
};
use crate::world_generator::spawning_tools::grid::{
    inside, pick_cell, same_filling, some_wanted, square, wanted_at, water_kept, Wanted,
};
use crate::world_generator::spawning_tools::matrix_spawn::HeightMap;
use crate::world_generator::tile_type_options::{CountRange, OxAgTileTypeOptions};

verus! {

/// The stamp that pours lava.
pub open spec fn lava() -> Target {
    (None, Some(TileType::Lava))
}

/// Stamps on top of stamps leave what stamps leave.
pub proof fn lemma_stamps_chain(
    target: Target,
    m0: Vec<Vec<Tile>>,
    m1: Vec<Vec<Tile>>,
    m2: Vec<Vec<Tile>>,
    size: int,
)
    requires
        stamps_only(target, m0, m1, size),
        stamps_only(target, m1, m2, size),
    ensures
        stamps_only(target, m0, m2, size),
{
    assert forall|r: int, c: int| inside(size, r, c) implies (#[trigger] m2[r][c]) == m0[r][c]
        || stamped(target, m0[r][c], m2[r][c]) by {
        let a = m1[r][c];
    }
}

/// Lava leaves water as it is: no cell goes from water to another terrain
/// while lava is poured. It leaves content and elevation as they are, too.
pub proof fn lemma_lava_keeps_water(before: Vec<Vec<Tile>>, now: Vec<Vec<Tile>>, size: int)
    requires
        stamps_only(lava(), before, now, size),
    ensures
        water_kept(before, now),
        same_filling(before, now),
{
    assert forall|r: int, c: int|
        0 <= r < before.len() && 0 <= c < before[r].len() implies (#[trigger] now[r][c]).content
        == before[r][c].content && now[r][c].elevation == before[r][c].elevation by {
        assert(inside(size, r, c));
    }
    assert forall|r: int, c: int|
        0 <= r < before.len() && 0 <= c < before[r].len() && (
        #[trigger] before[r][c]).tile_type.is_water_spec() implies now[r][c].tile_type
        == before[r][c].tile_type by {
        assert(inside(size, r, c));
        let t = now[r][c];
    }
}

/// Between the grids `before` and `after` a lake of lava of radius `radius`
/// was poured around the cell at `(row, col)`, a cell of grass or hill:
/// each cell of the disk, cut down to the grid, is lava unless it was water
/// or a teleport, and every other cell is as it was.
pub open spec fn lake_at(
    size: int,
    before: Vec<Vec<Tile>>,
    after: Vec<Vec<Tile>>,
    row: int,
    col: int,
    radius: int,
) -> bool {
    &&& inside(size, row, col)
    &&& wanted_at(before, None, Wanted::LakeCenter, row, col)
    &&& square(after, size)
    &&& forall|r: int, c: int|
        inside(size, r, c) ==> (#[trigger] after[r][c]) == (if in_disk(
            clipped_radius(size, row, col, radius),
            r - row,
            c - col,
        ) && !immune(before[r][c].tile_type) {
            Tile {
                tile_type: TileType::Lava,
                content: before[r][c].content,
                elevation: before[r][c].elevation,
            }
        } else {
            before[r][c]
        })
}

/// Between the grids `before` and `after` one lake of lava had its turn.
/// Where the grid had a cell of grass or hill, the lake was poured around
/// one, with a radius from `radii`; where it had none, nothing happened.
pub open spec fn lake_ran(
    size: int,
    radii: CountRange,
    before: Vec<Vec<Tile>>,
    after: Vec<Vec<Tile>>,
) -> bool {
    if some_wanted(before, None, Wanted::LakeCenter, 0, size) {
        exists|row: int, col: int, radius: int|
            radii.contains_spec(radius) && #[trigger] lake_at(size, before, after, row, col, radius)
    } else {
        after == before
    }
}

/// The lake numbered `i` had its turn between the grids numbered `i` and
/// `i + 1`.
pub open spec fn lake_link(size: int, radii: CountRange, grids: Seq<Vec<Vec<Tile>>>, i: int) -> bool {
    lake_ran(size, radii, grids[i], grids[i + 1])
}

/// One lake after another had its turn, each on the grid that the one
/// before left: `grids` holds the grid before the first lake, between the
/// lakes and after the last.
pub open spec fn lakes_ran(size: int, radii: CountRange, grids: Seq<Vec<Vec<Tile>>>) -> bool {
    &&& grids.len() >= 1
    &&& forall|i: int| 0 <= i < grids.len() - 1 ==> #[trigger] lake_link(size, radii, grids, i)
}

/// Some cell of the grid is lava.
pub open spec fn has_lava(map: Vec<Vec<Tile>>, size: int) -> bool {
    exists|r: int, c: int| inside(size, r, c) && (#[trigger] map[r][c]).tile_type == TileType::Lava
}

impl HeightMap {
    /// Pours a number of lava lakes drawn from `lava_n`: each around a cell
    /// of grass or hill drawn from the grid, with a radius drawn from
    /// `lava_radius`. Water and teleports stay as they are. A lake for
    /// which the grid has no grass or hill left is not poured, and where
    /// `lava_n` allows no lake the grid stays as it is.
    pub fn lava_spawn(
        &self,
        map: &mut Vec<Vec<Tile>>,
        spawn_levels: &OxAgTileTypeOptions,
        rng: &mut StdRng,
    )
        requires
            self.wf(),
            square(*old(map), self.size as int),
            spawn_levels.lava_n.wf(),
            spawn_levels.lava_radius.wf(),
        ensures
            stamps_only(lava(), *old(map), *final(map), self.size as int),
            spawn_levels.lava_n.start > 0 && some_wanted(
                *old(map),
                None,
                Wanted::LakeCenter,
                0,
                self.size as int,
            ) ==> has_lava(*final(map), self.size as int),
            spawn_levels.lava_n.end == 0 ==> *final(map) == *old(map),
            exists|grids: Seq<Vec<Vec<Tile>>>|
                #[trigger] lakes_ran(self.size as int, spawn_levels.lava_radius, grids)
                    && spawn_levels.lava_n.contains_spec(grids.len() - 1) && grids[0] == *old(map)
                    && grids.last() == *final(map),
    {
        let size: usize = self.size;
        let ghost origin = *map;
        let target: Target = (None, Some(TileType::Lava));
        let lakes: usize = spawn_levels.lava_n.draw(rng);
        let ghost mut grids: Seq<Vec<Vec<Tile>>> = seq![*map];
        let mut poured: usize = 0;
        while poured < lakes
            invariant
                grids.len() == poured + 1,
                grids[0] == origin,
                grids[poured as int] == *map,
                lakes_ran(size as int, spawn_levels.lava_radius, grids),
                square(*map, size as int),
                self.wf(),
                size == self.size,
                poured <= lakes,
                spawn_levels.lava_radius.wf(),
                target == lava(),
                stamps_only(lava(), origin, *map, size as int),
                poured == 0 ==> *map == origin,
                poured > 0 && some_wanted(origin, None, Wanted::LakeCenter, 0, size as int)
                    ==> has_lava(*map, size as int),
            decreases lakes - poured,
        {
            let ghost before = *map;
            match pick_cell(map, None, Wanted::LakeCenter, 0, size, rng) {
                Some((row, col)) => {
                    let radius: usize = spawn_levels.lava_radius.draw(rng);
                    spawn_circle(map, rng, size, row, col, radius, &target);
                    proof {
                        lemma_stamps_chain(lava(), origin, before, *map, size as int);
                        lemma_core_in_disk(
                            clipped_radius(size as int, row as int, col as int, radius as int),
                            0,
                            0,
                        );
                        assert(map[row as int][col as int].tile_type == TileType::Lava);
                        assert forall|r: int, c: int| inside(size as int, r, c) implies (
                        #[trigger] map[r][c]) == (if in_disk(
                            clipped_radius(size as int, row as int, col as int, radius as int),
                            r - row,
                            c - col,
                        ) && !immune(before[r][c].tile_type) {
                            Tile {
                                tile_type: TileType::Lava,
                                content: before[r][c].content,
                                elevation: before[r][c].elevation,
                            }
                        } else {
                            before[r][c]
                        }) by {
                            let t = before[r][c];
                        }
                        assert(lake_at(
                            size as int,
                            before,
                            *map,
                            row as int,
                            col as int,
                            radius as int,
                        ));
                    }
                },
                None => {
                    proof {
                        if poured == 0 && some_wanted(origin, None, Wanted::LakeCenter, 0, size as int) {
                            let w = choose|r: int, c: int|
                                0 <= r < size && 0 <= c < size && #[trigger] wanted_at(
                                    origin,
                                    None,
                                    Wanted::LakeCenter,
                                    r,
                                    c,
                                );
                            let t = map[w.0][w.1];
                            assert(wanted_at(*map, None, Wanted::LakeCenter, w.0, w.1)
                                || map[w.0][w.1].tile_type == TileType::Lava);
                        }
                    }
                },
            }
            proof {
                let longer = grids.push(*map);
                assert(lake_ran(size as int, spawn_levels.lava_radius, before, *map));
                assert forall|i: int| 0 <= i < longer.len() - 1 implies #[trigger] lake_link(
                    size as int,
                    spawn_levels.lava_radius,
                    longer,
                    i,
                ) by {
                    if i < poured {
                        assert(lake_link(size as int, spawn_levels.lava_radius, grids, i));
                        assert(longer[i] == grids[i] && longer[i + 1] == grids[i + 1]);
                    } else {
                        assert(longer[i] == before && longer[i + 1] == *map);
                    }
                }
                grids = longer;
            }
            poured += 1;
        }
    }
}

} // verus!
