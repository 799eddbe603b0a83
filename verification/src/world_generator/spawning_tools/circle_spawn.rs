//! Disks stamped on the grid.

use vstd::prelude::*;
use rand::rngs::StdRng;
use crate::utils::constants::MAX_WORLD_SIZE;
use crate::utils::random::draw_below;
use crate::world::tile::{Content, Tile, TileType};
use crate::world_generator::spawning_tools::grid::{inside, square};

verus! {

/// What a disk is made of: a content, with nothing for the terrain, or a
/// terrain, with nothing for the content. Any other pair stamps nothing.
pub type Target = (Option<Content>, Option<TileType>);

/// Water and teleports, which no terrain stamp overwrites.
pub open spec fn immune(terrain: TileType) -> bool {
    terrain.is_water_spec() || terrain is Teleport
}

/// `now` is what a stamp of `target` leaves of the tile `before`. A content
/// goes on a tile that can hold it, with an amount below the greatest of
/// its kind, and leaves any other tile as it is; a terrain replaces the
/// terrain of a tile that is not immune and leaves content and elevation.
pub open spec fn stamped(target: Target, before: Tile, now: Tile) -> bool {
    match target {
        (Some(content), None) => {
            &&& now.tile_type == before.tile_type
            &&& now.elevation == before.elevation
            &&& if before.tile_type.can_hold_spec(content) {
                now.content.placed_as(content)
            } else {
                now.content == before.content
            }
        },
        (None, Some(terrain)) => {
            &&& now.content == before.content
            &&& now.elevation == before.elevation
            &&& now.tile_type == if immune(before.tile_type) {
                before.tile_type
            } else {
                terrain
            }
        },
        _ => now == before,
    }
}

/// The radius of a disk around `(row, col)` once it is cut down so that the
/// disk stays on a grid of side `size`.
pub open spec fn clipped_radius(size: int, row: int, col: int, radius: int) -> int {
    let a = if radius < row {
        radius
    } else {
        row
    };
    let b = if a < col {
        a
    } else {
        col
    };
    let c = if b < size - row - 1 {
        b
    } else {
        size - row - 1
    };
    if c < size - col - 1 {
        c
    } else {
        size - col - 1
    }
}

/// The offset `(dr, dc)` is one of the eight that mirror `(x, y)` across
/// the axes and the diagonals.
pub open spec fn on_octants(x: int, y: int, dr: int, dc: int) -> bool {
    ||| (dr == x && dc == y)
    ||| (dr == y && dc == x)
    ||| (dr == -y && dc == x)
    ||| (dr == -x && dc == y)
    ||| (dr == -x && dc == -y)
    ||| (dr == -y && dc == -x)
    ||| (dr == y && dc == -x)
    ||| (dr == x && dc == -y)
}

/// The offset `(dr, dc)` lies on what is left of the rim when the midpoint
/// circle walk stands at `(x, y)` with the decision value `decision`. The
/// walk goes one step along the second axis at a time; it stays at its
/// distance along the first while the decision value is not positive, and
/// comes one step closer where it is; it ends once it has crossed the
/// diagonal.
pub open spec fn on_rim_from(x: int, y: int, decision: int, dr: int, dc: int) -> bool
    decreases
            (if x >= y {
                x - y + 1
            } else {
                0
            }),
{
    if x < y {
        false
    } else if on_octants(x, y, dr, dc) {
        true
    } else if decision <= 0 {
        on_rim_from(x, y + 1, decision + 2 * (y + 1) + 1, dr, dc)
    } else {
        on_rim_from(x - 1, y + 1, decision + 2 * (y + 1 - (x - 1)) + 1, dr, dc)
    }
}

/// The offset `(dr, dc)` lies on the rim of a disk of radius `radius`, as
/// the midpoint circle walk draws it.
pub open spec fn on_rim(radius: int, dr: int, dc: int) -> bool {
    on_rim_from(radius, 0, 1 - radius, dr, dc)
}

/// The offset `(dr, dc)` lies within a disk of radius `radius`, clear of
/// the rim by one cell along each axis.
pub open spec fn within_rim(radius: int, dr: int, dc: int) -> bool {
    -radius < dr < radius && -radius < dc < radius && dr * dr + dc * dc <= radius * radius
}

/// The offset `(dr, dc)` from its center belongs to a disk of radius
/// `radius`: it lies on the rim or within it.
pub open spec fn in_disk(radius: int, dr: int, dc: int) -> bool {
    on_rim(radius, dr, dc) || within_rim(radius, dr, dc)
}

/// The offsets from its center that a disk of radius `radius` is sure to
/// cover: those within the rim, and the four ends of the axes.
pub open spec fn in_core(radius: int, dr: int, dc: int) -> bool {
    ||| within_rim(radius, dr, dc)
    ||| (dr == 0 && (dc == radius || dc == -radius))
    ||| (dc == 0 && (dr == radius || dr == -radius))
}

/// The core of a disk belongs to the disk, and so does its center.
pub proof fn lemma_core_in_disk(radius: int, dr: int, dc: int)
    requires
        0 <= radius,
    ensures
        in_core(radius, dr, dc) ==> in_disk(radius, dr, dc),
        in_disk(radius, 0, 0),
{
    assert(on_octants(radius, 0, radius, 0));
    assert(on_octants(radius, 0, 0, radius));
    assert(on_octants(radius, 0, -radius, 0));
    assert(on_octants(radius, 0, 0, -radius));
    if radius == 0 {
        assert(on_rim(radius, 0, 0));
    } else {
        assert(within_rim(radius, 0, 0)) by (nonlinear_arith)
            requires
                radius > 0,
        ;
    }
}

/// Each cell of `now` is the cell of `origin`, or what a stamp leaves of it.
pub open spec fn stamps_only(
    target: Target,
    origin: Vec<Vec<Tile>>,
    now: Vec<Vec<Tile>>,
    size: int,
) -> bool {
    &&& square(origin, size)
    &&& square(now, size)
    &&& forall|r: int, c: int|
        inside(size, r, c) ==> (#[trigger] now[r][c]) == origin[r][c] || stamped(
            target,
            origin[r][c],
            now[r][c],
        )
}

/// What a stamp of `target` that carries the amount `value` leaves of the
/// tile `before`.
pub open spec fn stamp_spec(target: Target, before: Tile, value: usize) -> Tile {
    match target {
        (Some(content), None) => if before.tile_type.can_hold_spec(content) {
            Tile {
                tile_type: before.tile_type,
                content: content.to_value_spec(value),
                elevation: before.elevation,
            }
        } else {
            before
        },
        (None, Some(terrain)) => if immune(before.tile_type) {
            before
        } else {
            Tile { tile_type: terrain, content: before.content, elevation: before.elevation }
        },
        _ => before,
    }
}

/// Stamps `target`, carrying the amount `value`, on the cell at
/// `(row, col)`.
pub fn stamp_with(
    map: &mut Vec<Vec<Tile>>,
    row: usize,
    col: usize,
    target: &Target,
    value: usize,
)
    requires
        square(*old(map), old(map).len() as int),
        row < old(map).len(),
        col < old(map).len(),
    ensures
        square(*final(map), old(map).len() as int),
        final(map)[row as int][col as int] == stamp_spec(
            *target,
            old(map)[row as int][col as int],
            value,
        ),
        forall|r: int, c: int|
            inside(old(map).len() as int, r, c) && !(r == row && c == col) ==> (
            #[trigger] final(map)[r][c]) == old(map)[r][c],
{
    match target {
        (Some(content), None) => {
            if map[row][col].tile_type.can_hold(*content) {
                map[row][col].content = content.to_value(value);
            }
        },
        (None, Some(terrain)) => {
            let here = map[row][col].tile_type;
            let spared = match here {
                TileType::ShallowWater | TileType::DeepWater | TileType::Teleport(_) => true,
                _ => false,
            };
            if !spared {
                map[row][col].tile_type = *terrain;
            }
        },
        _ => {},
    }
}

/// Stamps `target` on the cell at `(row, col)`. A content is stamped with
/// an amount drawn below the greatest of its kind, and with 0 where its
/// kind has no amount.
pub fn stamp(map: &mut Vec<Vec<Tile>>, rng: &mut StdRng, row: usize, col: usize, target: &Target)
    requires
        square(*old(map), old(map).len() as int),
        row < old(map).len(),
        col < old(map).len(),
    ensures
        square(*final(map), old(map).len() as int),
        stamped(*target, old(map)[row as int][col as int], final(map)[row as int][col as int]),
        forall|r: int, c: int|
            inside(old(map).len() as int, r, c) && !(r == row && c == col) ==> (
            #[trigger] final(map)[r][c]) == old(map)[r][c],
{
    let mut value: usize = 0;
    match target {
        (Some(content), None) => {
            if content.max() != 0 {
                value = draw_below(rng, content.max());
            }
        },
        _ => {},
    }
    stamp_with(map, row, col, target, value);
}

/// A stamp on top of a stamp leaves what one stamp leaves.
pub proof fn lemma_stamped_twice(target: Target, origin: Tile, between: Tile, now: Tile)
    requires
        between == origin || stamped(target, origin, between),
        stamped(target, between, now),
    ensures
        stamped(target, origin, now),
{
}

/// Stamps the cell at `(row + dr, col + dc)` of a grid on which only stamps
/// of `target` have gone since `origin`.
fn stamp_at(
    map: &mut Vec<Vec<Tile>>,
    rng: &mut StdRng,
    row: i64,
    col: i64,
    dr: i64,
    dc: i64,
    target: &Target,
    Ghost(origin): Ghost<Vec<Vec<Tile>>>,
)
    requires
        old(map).len() <= MAX_WORLD_SIZE,
        stamps_only(*target, origin, *old(map), old(map).len() as int),
        -(MAX_WORLD_SIZE as int) <= dr <= MAX_WORLD_SIZE,
        -(MAX_WORLD_SIZE as int) <= dc <= MAX_WORLD_SIZE,
        0 <= row < old(map).len(),
        0 <= col < old(map).len(),
        inside(old(map).len() as int, row + dr, col + dc),
    ensures
        stamps_only(*target, origin, *final(map), old(map).len() as int),
        stamped(*target, origin[row + dr][col + dc], final(map)[row + dr][col + dc]),
        forall|r: int, c: int|
            inside(old(map).len() as int, r, c) && !(r == row + dr && c == col + dc) ==> (
            #[trigger] final(map)[r][c]) == old(map)[r][c],
{
    let r: usize = (row + dr) as usize;
    let c: usize = (col + dc) as usize;
    stamp(map, rng, r, c, target);
    proof {
        lemma_stamped_twice(
            *target,
            origin[r as int][c as int],
            old(map)[r as int][c as int],
            map[r as int][c as int],
        );
    }
}

/// Each cell whose offset from `(row, col)` is marked in `done` is as a
/// stamp of `target` leaves the cell of `origin`; every other cell is that
/// of `origin`.
pub open spec fn stamped_where(
    target: Target,
    origin: Vec<Vec<Tile>>,
    now: Vec<Vec<Tile>>,
    size: int,
    row: int,
    col: int,
    done: spec_fn(int, int) -> bool,
) -> bool {
    &&& stamps_only(target, origin, now, size)
    &&& forall|r: int, c: int|
        #![trigger now[r][c]]
        inside(size, r, c) && done(r - row, c - col) ==> stamped(target, origin[r][c], now[r][c])
    &&& forall|r: int, c: int|
        #![trigger now[r][c]]
        inside(size, r, c) && !done(r - row, c - col) ==> now[r][c] == origin[r][c]
}

/// Stamps the eight cells that mirror the offset `(x, y)` from
/// `(row, col)`.
fn stamp_octants(
    map: &mut Vec<Vec<Tile>>,
    rng: &mut StdRng,
    row: i64,
    col: i64,
    x: i64,
    y: i64,
    target: &Target,
    Ghost(origin): Ghost<Vec<Vec<Tile>>>,
    Ghost(done): Ghost<spec_fn(int, int) -> bool>,
)
    requires
        old(map).len() <= MAX_WORLD_SIZE,
        0 <= y <= x,
        0 <= row - x,
        row + x < old(map).len(),
        0 <= col - x,
        col + x < old(map).len(),
        stamped_where(*target, origin, *old(map), old(map).len() as int, row as int, col as int, done),
    ensures
        stamped_where(
            *target,
            origin,
            *final(map),
            old(map).len() as int,
            row as int,
            col as int,
            |dr: int, dc: int| done(dr, dc) || on_octants(x as int, y as int, dr, dc),
        ),
{
    stamp_at(map, rng, row, col, x, y, target, Ghost(origin));
    stamp_at(map, rng, row, col, y, x, target, Ghost(origin));
    stamp_at(map, rng, row, col, -y, x, target, Ghost(origin));
    stamp_at(map, rng, row, col, -x, y, target, Ghost(origin));
    stamp_at(map, rng, row, col, -x, -y, target, Ghost(origin));
    stamp_at(map, rng, row, col, -y, -x, target, Ghost(origin));
    stamp_at(map, rng, row, col, y, -x, target, Ghost(origin));
    stamp_at(map, rng, row, col, x, -y, target, Ghost(origin));
}

/// Stamps a disk of `target` around the cell at `(center_x, center_y)`, row
/// first, with `radius` cut down so that the disk stays on the grid: its
/// rim by the midpoint circle walk, then what lies within.
///
/// Each cell of the disk is as a stamp leaves it, and every other cell is
/// left as it was.
pub fn spawn_circle(
    map: &mut Vec<Vec<Tile>>,
    rng: &mut StdRng,
    size: usize,
    center_x: usize,
    center_y: usize,
    radius: usize,
    target: &Target,
)
    requires
        square(*old(map), size as int),
        size <= MAX_WORLD_SIZE,
        center_x < size,
        center_y < size,
    ensures
        stamped_where(
            *target,
            *old(map),
            *final(map),
            size as int,
            center_x as int,
            center_y as int,
            |dr: int, dc: int|
                in_disk(
                    clipped_radius(size as int, center_x as int, center_y as int, radius as int),
                    dr,
                    dc,
                ),
        ),
        forall|r: int, c: int|
            #![trigger final(map)[r][c]]
            inside(size as int, r, c) && {
                let rad = clipped_radius(
                    size as int,
                    center_x as int,
                    center_y as int,
                    radius as int,
                );
                r < center_x - rad || r > center_x + rad || c < center_y - rad || c > center_y
                    + rad
            } ==> final(map)[r][c] == old(map)[r][c],
{
    let ghost origin = *map;
    let a: usize = if radius < center_x {
        radius
    } else {
        center_x
    };
    let b: usize = if a < center_y {
        a
    } else {
        center_y
    };
    let c: usize = if b < size - center_x - 1 {
        b
    } else {
        size - center_x - 1
    };
    let clipped: usize = if c < size - center_y - 1 {
        c
    } else {
        size - center_y - 1
    };
    let rad: i64 = clipped as i64;
    let cx: i64 = center_x as i64;
    let cy: i64 = center_y as i64;
    assert(rad == clipped_radius(size as int, center_x as int, center_y as int, radius as int));

    let mut x: i64 = rad;
    let mut y: i64 = 0;
    let mut decision: i64 = 1 - x;
    let step: i64 = 2 * rad + 5;
    let ghost mut done: spec_fn(int, int) -> bool = |dr: int, dc: int| false;
    while x >= y
        invariant
            size == map.len(),
            size <= MAX_WORLD_SIZE,
            0 <= rad <= cx < size,
            rad <= cy < size,
            cx + rad < size,
            cy + rad < size,
            step == 2 * rad + 5,
            -1 <= x <= rad,
            0 <= y <= rad + 1,
            y <= x + 2,
            -(step * (y + 1)) <= decision <= step * (y + 1),
            stamped_where(*target, origin, *map, size as int, cx as int, cy as int, done),
            forall|dr: int, dc: int|
                #![trigger on_rim(rad as int, dr, dc)]
                on_rim(rad as int, dr, dc) == (done(dr, dc) || on_rim_from(
                    x as int,
                    y as int,
                    decision as int,
                    dr,
                    dc,
                )),
            forall|dr: int, dc: int|
                #![trigger done(dr, dc)]
                done(dr, dc) ==> -rad <= dr <= rad && -rad <= dc <= rad,
        decreases x - y + 2,
    {
        let ghost before = done;
        stamp_octants(map, rng, cx, cy, x, y, target, Ghost(origin), Ghost(done));
        proof {
            done = |dr: int, dc: int| before(dr, dc) || on_octants(x as int, y as int, dr, dc);
        }
        assert(step * (y + 2) == step * (y + 1) + step) by (nonlinear_arith);
        assert(0 <= step * (y + 1)) by (nonlinear_arith)
            requires
                0 <= y,
                0 <= step,
        ;
        assert(step * (rad + 3) <= (2 * 32768 + 5) * 32771) by (nonlinear_arith)
            requires
                0 <= rad <= 32768,
                step == 2 * rad + 5,
        ;
        assert(step * (y + 2) <= step * (rad + 3)) by (nonlinear_arith)
            requires
                0 <= y <= rad + 1,
                step >= 0,
        ;
        let ghost x0 = x as int;
        let ghost y0 = y as int;
        let ghost d0 = decision as int;
        y += 1;
        if decision <= 0 {
            decision += 2 * y + 1;
        } else {
            x -= 1;
            decision += 2 * (y - x) + 1;
        }
        proof {
            assert forall|dr: int, dc: int|
                #![trigger on_rim(rad as int, dr, dc)]
                on_rim(rad as int, dr, dc) == (done(dr, dc) || on_rim_from(
                    x as int,
                    y as int,
                    decision as int,
                    dr,
                    dc,
                )) by {
                assert(on_rim(rad as int, dr, dc) == (before(dr, dc) || on_rim_from(
                    x0,
                    y0,
                    d0,
                    dr,
                    dc,
                )));
                assert(on_rim_from(x0, y0, d0, dr, dc) == (on_octants(x0, y0, dr, dc)
                    || on_rim_from(x as int, y as int, decision as int, dr, dc)));
            }
        }
    }
    proof {
        assert forall|dr: int, dc: int| on_rim(rad as int, dr, dc) == done(dr, dc) by {
            assert(!on_rim_from(x as int, y as int, decision as int, dr, dc));
        }
    }
    let ghost rim: spec_fn(int, int) -> bool = |dr: int, dc: int| on_rim(rad as int, dr, dc);
    assert(stamped_where(*target, origin, *map, size as int, cx as int, cy as int, rim)) by {
        assert forall|r: int, c: int|
            #![trigger map[r][c]]
            inside(size as int, r, c) && rim(r - cx, c - cy) implies stamped(
            *target,
            origin[r][c],
            map[r][c],
        ) by {
            assert(done(r - cx, c - cy));
        }
        assert forall|r: int, c: int|
            #![trigger map[r][c]]
            inside(size as int, r, c) && !rim(r - cx, c - cy) implies map[r][c]
            == origin[r][c] by {
            assert(!done(r - cx, c - cy));
        }
    }

    let mut i: i64 = cx - rad + 1;
    while i < cx + rad
        invariant
            size == map.len(),
            size <= MAX_WORLD_SIZE,
            0 <= rad <= cx < size,
            rad <= cy < size,
            cx + rad < size,
            cy + rad < size,
            cx - rad + 1 <= i,
            rim == (|dr: int, dc: int| on_rim(rad as int, dr, dc)),
            forall|dr: int, dc: int|
                #![trigger on_rim(rad as int, dr, dc)]
                on_rim(rad as int, dr, dc) ==> -rad <= dr <= rad && -rad <= dc <= rad,
            stamped_where(
                *target,
                origin,
                *map,
                size as int,
                cx as int,
                cy as int,
                |dr: int, dc: int|
                    rim(dr, dc) || (within_rim(rad as int, dr, dc) && dr < i - cx),
            ),
        decreases cx + rad - i,
    {
        let mut j: i64 = cy - rad + 1;
        while j < cy + rad
            invariant
                size == map.len(),
                size <= MAX_WORLD_SIZE,
                0 <= rad <= cx < size,
                rad <= cy < size,
                cx + rad < size,
                cy + rad < size,
                cx - rad + 1 <= i < cx + rad,
                cy - rad + 1 <= j,
                rim == (|dr: int, dc: int| on_rim(rad as int, dr, dc)),
                stamped_where(
                    *target,
                    origin,
                    *map,
                    size as int,
                    cx as int,
                    cy as int,
                    |dr: int, dc: int|
                        rim(dr, dc) || (within_rim(rad as int, dr, dc) && (dr < i - cx || (dr == i
                            - cx && dc < j - cy))),
                ),
            decreases cy + rad - j,
        {
            let di: i64 = i - cx;
            let dj: i64 = j - cy;
            assert(0 <= di * di <= 1_073_741_824) by (nonlinear_arith)
                requires
                    -32768 <= di <= 32768,
            ;
            assert(0 <= dj * dj <= 1_073_741_824) by (nonlinear_arith)
                requires
                    -32768 <= dj <= 32768,
            ;
            assert(0 <= rad * rad <= 1_073_741_824) by (nonlinear_arith)
                requires
                    0 <= rad <= 32768,
            ;
            let reach: i64 = rad * rad;
            let far: i64 = di * di + dj * dj;
            if far <= reach {
                stamp_at(map, rng, cx, cy, di, dj, target, Ghost(origin));
            }
            j += 1;
        }
        i += 1;
    }
    proof {
        let disk = |dr: int, dc: int|
            in_disk(
                clipped_radius(size as int, center_x as int, center_y as int, radius as int),
                dr,
                dc,
            );
        let reached = |dr: int, dc: int|
            rim(dr, dc) || (within_rim(rad as int, dr, dc) && dr < i - cx);
        assert forall|r: int, c: int|
            #![trigger map[r][c]]
            inside(size as int, r, c) && disk(r - cx, c - cy) implies stamped(
            *target,
            origin[r][c],
            map[r][c],
        ) by {
            assert(reached(r - cx, c - cy));
        }
        assert forall|r: int, c: int|
            #![trigger map[r][c]]
            inside(size as int, r, c) && !disk(r - cx, c - cy) implies map[r][c]
            == origin[r][c] by {
            assert(!reached(r - cx, c - cy));
        }
        assert forall|r: int, c: int|
            #![trigger map[r][c]]
            inside(size as int, r, c) && (r < cx - rad || r > cx + rad || c < cy - rad || c > cy
                + rad) implies map[r][c] == origin[r][c] by {
            if on_rim(rad as int, r - cx, c - cy) {
            }
            assert(!reached(r - cx, c - cy));
        }
    }
}

} // verus!
