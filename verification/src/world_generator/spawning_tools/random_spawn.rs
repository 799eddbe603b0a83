//! Content spread cell by cell.

use vstd::prelude::*;
use rand::rngs::StdRng;
use crate::utils::constants::{MAX_WORLD_SIZE, UNIT};
use crate::utils::random::draw_between;
use crate::world::tile::{lemma_kind_decides, Content, Tile};
use crate::world_generator::content_options::OxAgContentOptions;
use crate::world_generator::spawning_tools::circle_spawn::{stamp, stamped, stamps_only, Target};
use crate::world_generator::spawning_tools::grid::{
    content_fits, draw_cell, first_wanted, inside, same_terrain, some_wanted, square, wanted_at,
    Wanted,
};
use crate::world_generator::spawning_tools::lava_spawn::lemma_stamps_chain;
use crate::world_generator::spawning_tools::measure::{
    cells_at, cells_below, count_at, count_where, lemma_count_at_one, lemma_count_step,
    lemma_number_of_cell,
};
use crate::world_generator::spawning_tools::TileMat;

verus! {

/// The stamp that places a content.
pub open spec fn placing(content: Content) -> Target {
    (Some(content), None)
}

/// The tiles whose terrain can hold `content`.
pub open spec fn holding(content: Content) -> spec_fn(Tile) -> bool {
    |t: Tile| t.tile_type.can_hold_spec(content)
}

/// How many cells of the grid can hold `content`.
pub open spec fn holders_spec(map: Vec<Vec<Tile>>, size: int, content: Content) -> nat {
    count_where(map, size, holding(content))
}

/// The part of `holders` cells that a share of `percentage` millionths
/// comes to, rounded down; nothing for a share that is not positive.
pub open spec fn share_spec(holders: int, percentage: int) -> int {
    if holders <= 0 || percentage <= 0 {
        0
    } else {
        holders * percentage / (UNIT as int)
    }
}

/// The cells in which the grid `now` differs from the grid `before`.
pub open spec fn differs(before: Vec<Vec<Tile>>, now: Vec<Vec<Tile>>) -> spec_fn(int, int) -> bool {
    |r: int, c: int| now[r][c] != before[r][c]
}

/// In how many cells the grid `now` differs from the grid `before`.
pub open spec fn changed(before: Vec<Vec<Tile>>, now: Vec<Vec<Tile>>, size: int) -> nat {
    count_at(size, differs(before, now))
}

/// Between the grids `before` and `after` the content was placed once: on
/// the cell at `(r, c)`, which can hold it, as a stamp leaves it, with
/// every other cell as it was.
pub open spec fn placed_at(
    content: Content,
    before: Vec<Vec<Tile>>,
    after: Vec<Vec<Tile>>,
    size: int,
    r: int,
    c: int,
) -> bool {
    &&& inside(size, r, c)
    &&& wanted_at(before, None, Wanted::Holder(content), r, c)
    &&& square(after, size)
    &&& stamped(placing(content), before[r][c], after[r][c])
    &&& forall|i: int, j: int|
        inside(size, i, j) && !(i == r && j == c) ==> (#[trigger] after[i][j]) == before[i][j]
}

/// The placement numbered `i` was made between the grids numbered `i` and
/// `i + 1`, on some cell that can hold the content.
pub open spec fn placement_link(
    content: Content,
    size: int,
    grids: Seq<Vec<Vec<Tile>>>,
    i: int,
) -> bool {
    exists|r: int, c: int| #[trigger] placed_at(content, grids[i], grids[i + 1], size, r, c)
}

/// One placement of the content after another was made, each on the grid
/// that the one before left: `grids` holds the grid before the first
/// placement, between the placements and after the last.
pub open spec fn placements_ran(content: Content, size: int, grids: Seq<Vec<Vec<Tile>>>) -> bool {
    &&& grids.len() >= 1
    &&& forall|i: int| 0 <= i < grids.len() - 1 ==> #[trigger] placement_link(content, size, grids, i)
}

/// Between the grids `before` and `after` the content was spread cell by
/// cell as its options ask, `holders` being the number of cells that can
/// hold it: where a cell can hold it, as many placements were made as
/// `spawn_number_ok` allows with the share of the holders as the limit;
/// where none can, nothing was placed.
pub open spec fn spread_randomly(
    content: Content,
    options: OxAgContentOptions,
    holders: int,
    before: Vec<Vec<Tile>>,
    after: Vec<Vec<Tile>>,
    size: int,
) -> bool {
    if some_wanted(before, None, Wanted::Holder(content), 0, size) {
        exists|grids: Seq<Vec<Vec<Tile>>>|
            #[trigger] placements_ran(content, size, grids) && grids[0] == before && grids.last()
                == after && spawn_number_ok(
                options,
                share_spec(holders, options.percentage as int),
                grids.len() - 1,
            )
    } else {
        after == before
    }
}

/// How many placements a pass makes for a kind whose count has the upper
/// limit `limit`: the number may be fixed by the options; else it lies
/// between the least number and the limit, or is the least number where
/// that exceeds the limit.
pub open spec fn spawn_number_ok(options: OxAgContentOptions, limit: int, n: int) -> bool {
    if options.with_max_spawn_number {
        n == options.max_spawn_number
    } else {
        options.min_spawn_number <= n && (n <= limit || n == options.min_spawn_number)
    }
}

/// Some cell of the grid carries a content of the kind of `kind`, placed as
/// a pass places it.
pub open spec fn lies_somewhere(map: Vec<Vec<Tile>>, size: int, kind: Content) -> bool {
    exists|r: int, c: int| inside(size, r, c) && (#[trigger] map[r][c]).content.placed_as(kind)
}

/// The options ask for at least one placement, whatever is drawn.
pub open spec fn asks_for_some(options: OxAgContentOptions) -> bool {
    if options.with_max_spawn_number {
        options.max_spawn_number > 0
    } else {
        options.min_spawn_number > 0
    }
}

/// Placing a content leaves the terrain as it is, and leaves every content
/// on a terrain that can hold it.
pub proof fn lemma_placing_fits(
    content: Content,
    before: Vec<Vec<Tile>>,
    now: Vec<Vec<Tile>>,
    size: int,
)
    requires
        stamps_only(placing(content), before, now, size),
    ensures
        same_terrain(before, now),
        content_fits(before) ==> content_fits(now),
{
    assert forall|r: int, c: int|
        0 <= r < before.len() && 0 <= c < before[r].len() implies (#[trigger] before[r][c]).tile_type
        == now[r][c].tile_type by {
        assert(inside(size, r, c));
        let t = now[r][c];
    }
    if content_fits(before) {
        assert forall|r: int, c: int|
            0 <= r < now.len() && 0 <= c < now[r].len() && !((
            #[trigger] now[r][c]).content is Empty) implies now[r][c].tile_type.can_hold_spec(
            now[r][c].content,
        ) by {
            assert(inside(size, r, c));
            let b = before[r][c];
            if now[r][c] != b {
                if b.tile_type.can_hold_spec(content) {
                    lemma_kind_decides(now[r][c].content, content, b.tile_type);
                }
            }
        }
    }
}

/// How many cells of the grid can hold `content`.
pub fn holders(map: &Vec<Vec<Tile>>, size: usize, content: Content) -> (n: usize)
    requires
        0 < size <= MAX_WORLD_SIZE,
        square(*map, size as int),
    ensures
        n == holders_spec(*map, size as int, content),
        n <= size * size,
        n > 0 <==> some_wanted(*map, None, Wanted::Holder(content), 0, size as int),
{
    let ghost p = holding(content);
    let ghost side = size as int;
    let mut n: usize = 0;
    let mut r: usize = 0;
    assert(cells_below(*map, side, p, 0) =~= Set::empty());
    assert(side * side <= 32768 * 32768) by (nonlinear_arith)
        requires
            0 < side <= 32768,
    ;
    while r < size
        invariant
            0 < size <= MAX_WORLD_SIZE,
            side == size,
            side * side <= 32768 * 32768,
            square(*map, side),
            r <= size,
            p == holding(content),
            n == cells_below(*map, side, p, r * side).len(),
            n <= r * side,
            n > 0 <==> exists|i: int, j: int|
                0 <= i < r && 0 <= j < side && #[trigger] wanted_at(
                    *map,
                    None,
                    Wanted::Holder(content),
                    i,
                    j,
                ),
        decreases size - r,
    {
        let mut c: usize = 0;
        proof {
            lemma_number_of_cell(side, r as int, 0);
            assert(r * side + side <= side * side) by (nonlinear_arith)
                requires
                    0 <= r < side,
            ;
        }
        while c < size
            invariant
                0 < size <= MAX_WORLD_SIZE,
                side == size,
                side * side <= 32768 * 32768,
                square(*map, side),
                r < size,
                c <= size,
                p == holding(content),
                n == cells_below(*map, side, p, r * side + c).len(),
                n <= r * side + c,
                r * side + side <= side * side,
                n > 0 <==> (exists|i: int, j: int|
                    0 <= i < r && 0 <= j < side && #[trigger] wanted_at(
                        *map,
                        None,
                        Wanted::Holder(content),
                        i,
                        j,
                    )) || (exists|j: int|
                    0 <= j < c && #[trigger] wanted_at(
                        *map,
                        None,
                        Wanted::Holder(content),
                        r as int,
                        j,
                    )),
            decreases size - c,
        {
            proof {
                lemma_number_of_cell(side, r as int, c as int);
                lemma_count_step(*map, side, p, r * side + c);
            }
            if map[r][c].tile_type.can_hold(content) {
                assert(wanted_at(*map, None, Wanted::Holder(content), r as int, c as int));
                n += 1;
            }
            c += 1;
        }
        proof {
            lemma_number_of_cell(side, r as int, 0);
        }
        r += 1;
    }
    proof {
        assert(r * side == side * side);
        lemma_number_of_cell(side, side - 1, side - 1);
        lemma_count_step(*map, side, p, side * side - 1);
    }
    n
}

/// The part of `holders` cells that a share of `percentage` millionths
/// comes to.
pub fn share(holders: usize, percentage: i64) -> (n: usize)
    requires
        holders <= MAX_WORLD_SIZE * MAX_WORLD_SIZE,
        percentage <= UNIT,
    ensures
        n == share_spec(holders as int, percentage as int),
        n <= holders,
{
    if holders == 0 || percentage <= 0 {
        return 0;
    }
    assert(holders * percentage <= 1_073_741_824 * 1_000_000) by (nonlinear_arith)
        requires
            0 <= holders <= 1_073_741_824,
            0 <= percentage <= 1_000_000,
    ;
    let product: u64 = (holders as u64) * (percentage as u64);
    let part: u64 = product / 1_000_000;
    assert(part <= holders) by (nonlinear_arith)
        requires
            part == product / 1_000_000,
            product == holders * percentage,
            0 <= percentage <= 1_000_000,
            0 <= holders,
    ;
    part as usize
}

/// Draws how many placements to make for a kind whose count has the upper
/// limit `limit`.
pub fn spawn_number(options: &OxAgContentOptions, limit: usize, rng: &mut StdRng) -> (n: usize)
    ensures
        spawn_number_ok(*options, limit as int, n as int),
{
    if options.with_max_spawn_number {
        options.max_spawn_number
    } else {
        let top: usize = if options.min_spawn_number > limit {
            options.min_spawn_number
        } else {
            limit
        };
        draw_between(rng, options.min_spawn_number, top)
    }
}

impl TileMat {
    /// Places `content` on cells drawn from those that can hold it, each
    /// time with an amount drawn below the greatest of its kind; nothing
    /// where no cell can hold it. `holders` is the number of cells that can
    /// hold it; the number of placements is drawn by `spawn_number` with the
    /// share of the holders as its limit. No more cells change than
    /// placements are made, and none where the number is fixed at 0. Each
    /// placement lies on a cell that can hold the content, on the grid
    /// that the one before left.
    pub fn spawn_randomly(
        &mut self,
        content: &Content,
        content_option: &OxAgContentOptions,
        holders: usize,
        rng: &mut StdRng,
    )
        requires
            old(self).wf(),
            content_option.valid(),
            holders <= old(self).size * old(self).size,
        ensures
            final(self).wf(),
            final(self).size == old(self).size,
            final(self).seed == old(self).seed,
            final(self).with_info == old(self).with_info,
            stamps_only(placing(*content), old(self).map, final(self).map, old(self).size as int),
            asks_for_some(*content_option) && some_wanted(
                old(self).map,
                None,
                Wanted::Holder(*content),
                0,
                old(self).size as int,
            ) ==> lies_somewhere(final(self).map, old(self).size as int, *content),
            exists|n: int| #[trigger]
                spawn_number_ok(
                    *content_option,
                    share_spec(holders as int, content_option.percentage as int),
                    n,
                ) && changed(old(self).map, final(self).map, old(self).size as int) <= n,
            content_option.with_max_spawn_number && content_option.max_spawn_number == 0
                ==> final(self).map == old(self).map,
            spread_randomly(
                *content,
                *content_option,
                holders as int,
                old(self).map,
                final(self).map,
                old(self).size as int,
            ),
    {
        let size: usize = self.size;
        let ghost origin = self.map;
        let ghost mut witness: (int, int) = (0, 0);
        let ghost mut grids: Seq<Vec<Vec<Tile>>> = seq![self.map];
        let target: Target = (Some(*content), None);
        assert(size * size <= 32768 * 32768) by (nonlinear_arith)
            requires
                0 < size <= 32768,
        ;
        let limit: usize = share(holders, content_option.percentage);
        let number: usize = spawn_number(content_option, limit, rng);
        proof {
            assert(cells_at(size as int, differs(origin, origin)) =~= Set::<int>::empty());
        }
        let known = match first_wanted(&self.map, None, Wanted::Holder(*content), 0, size) {
            Some(known) => known,
            None => {
                return ;
            },
        };
        let mut placed: usize = 0;
        while placed < number
            invariant
                self.wf(),
                size == self.size == old(self).size,
                self.seed == old(self).seed,
                self.with_info == old(self).with_info,
                target == placing(*content),
                stamps_only(placing(*content), origin, self.map, size as int),
                known.0 < size,
                known.1 < size,
                wanted_at(self.map, None, Wanted::Holder(*content), known.0 as int, known.1 as int),
                placed > 0 ==> inside(size as int, witness.0, witness.1)
                    && self.map[witness.0][witness.1].content.placed_as(*content),
                placed <= number,
                placed == 0 ==> self.map == origin,
                changed(origin, self.map, size as int) <= placed,
                grids.len() == placed + 1,
                grids[0] == origin,
                grids[placed as int] == self.map,
                placements_ran(*content, size as int, grids),
            decreases number - placed,
        {
            let ghost before = self.map;
            let (row, col) = draw_cell(
                &self.map,
                None,
                Wanted::Holder(*content),
                0,
                size,
                known,
                rng,
            );
            stamp(&mut self.map, rng, row, col, &target);
            proof {
                assert forall|r: int, c: int| inside(size as int, r, c) implies (
                #[trigger] self.map[r][c]) == before[r][c] || stamped(
                    placing(*content),
                    before[r][c],
                    self.map[r][c],
                ) by {}
                lemma_stamps_chain(placing(*content), origin, before, self.map, size as int);
                lemma_count_at_one(
                    size as int,
                    differs(origin, before),
                    differs(origin, self.map),
                    row as int,
                    col as int,
                );
                let t = self.map[known.0 as int][known.1 as int];
                assert(t.tile_type == before[known.0 as int][known.1 as int].tile_type);
                if placed > 0 && !(witness.0 == row && witness.1 == col) {
                    assert(self.map[witness.0][witness.1] == before[witness.0][witness.1]);
                } else {
                    witness = (row as int, col as int);
                }
                let longer = grids.push(self.map);
                assert(placed_at(*content, before, self.map, size as int, row as int, col as int));
                assert forall|i: int| 0 <= i < longer.len() - 1 implies #[trigger] placement_link(
                    *content,
                    size as int,
                    longer,
                    i,
                ) by {
                    if i < placed {
                        assert(placement_link(*content, size as int, grids, i));
                        assert(longer[i] == grids[i] && longer[i + 1] == grids[i + 1]);
                    } else {
                        assert(longer[i] == before && longer[i + 1] == self.map);
                    }
                }
                grids = longer;
            }
            placed += 1;
        }
        proof {
            assert(some_wanted(origin, None, Wanted::Holder(*content), 0, size as int));
            assert(placements_ran(*content, size as int, grids) && grids[0] == origin
                && grids.last() == self.map);
        }
    }
}

} // verus!
