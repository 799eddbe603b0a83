//! Content spread in batches: disks in which a field of heights and the
//! distance from the center decide together where the content lies.

use vstd::prelude::*;
use rand::rngs::StdRng;
use crate::utils::constants::{MAX_WORLD_SIZE, UNIT};
use crate::utils::random::chance;
use crate::world::tile::{Content, Tile};
use crate::world_generator::spawning_tools::circle_spawn::{stamp, stamped, stamps_only, Target};
use crate::world_generator::spawning_tools::grid::{inside, square};
use crate::world_generator::spawning_tools::lava_spawn::lemma_stamps_chain;
use crate::world_generator::spawning_tools::matrix_spawn::HeightMap;
use crate::world_generator::spawning_tools::random_spawn::placing;
use crate::world_generator::spawning_tools::TileMat;

verus! {

/// `root` is the square root of `n`, rounded down.
pub open spec fn is_sqrt_floor(n: int, root: int) -> bool {
    root >= 0 && root * root <= n < (root + 1) * (root + 1)
}

/// The square root of `n`, rounded down.
pub open spec fn sqrt_floor(n: int) -> int {
    choose|root: int| is_sqrt_floor(n, root)
}

/// A number has one rounded-down square root.
pub proof fn lemma_sqrt_floor_unique(n: int, a: int, b: int)
    requires
        is_sqrt_floor(n, a),
        is_sqrt_floor(n, b),
    ensures
        a == b,
        sqrt_floor(n) == a,
{
    assert(a == b) by (nonlinear_arith)
        requires
            a >= 0,
            b >= 0,
            a * a <= n < (a + 1) * (a + 1),
            b * b <= n < (b + 1) * (b + 1),
    {
        if a < b {
            assert((a + 1) * (a + 1) <= b * b);
        } else if b < a {
            assert((b + 1) * (b + 1) <= a * a);
        }
    }
    let s = sqrt_floor(n);
    assert(is_sqrt_floor(n, s));
    assert(s == a) by (nonlinear_arith)
        requires
            a >= 0,
            s >= 0,
            a * a <= n < (a + 1) * (a + 1),
            s * s <= n < (s + 1) * (s + 1),
    {
        if a < s {
            assert((a + 1) * (a + 1) <= s * s);
        } else if s < a {
            assert((s + 1) * (s + 1) <= a * a);
        }
    }
}

/// The square root of `n`, rounded down.
pub fn isqrt(n: u128) -> (root: u64)
    requires
        n < 0x1_0000_0000_0000_0000_0000_0000,
    ensures
        root == sqrt_floor(n as int),
        is_sqrt_floor(n as int, root as int),
{
    let mut low: u128 = 0;
    let mut high: u128 = 0x1_0000_0000_0000;
    while high - low > 1
        invariant
            low < high <= 0x1_0000_0000_0000,
            low * low <= n < high * high,
        decreases high - low,
    {
        let mid: u128 = low + (high - low) / 2;
        assert(mid * mid <= 0x1_0000_0000_0000 * 0x1_0000_0000_0000) by (nonlinear_arith)
            requires
                0 <= mid <= 0x1_0000_0000_0000,
        ;
        if mid * mid <= n {
            low = mid;
        } else {
            high = mid;
        }
    }
    proof {
        lemma_sqrt_floor_unique(n as int, low as int, low as int);
    }
    low as u64
}

/// Where a height lies between the least and the greatest of its field, in
/// millionths; nothing in a field that is flat.
pub open spec fn noise_share_spec(value: int, min: int, max: int) -> int {
    if min < max {
        (value - min) * (UNIT as int) / (max - min)
    } else {
        0
    }
}

/// How far the offset `(dr, dc)` lies from the center of a disk of radius
/// `radius`, in millionths of the radius.
pub open spec fn distance_share_spec(dr: int, dc: int, radius: int) -> int {
    sqrt_floor((dr * dr + dc * dc) * 1_000_000_000_000) / radius
}

/// The chance, out of two million, that a cell of a batch gets the content:
/// the mean of its noise share and its distance share, each a millionth
/// part taken out of one million.
pub open spec fn batch_chance_spec(
    value: int,
    min: int,
    max: int,
    dr: int,
    dc: int,
    radius: int,
) -> int {
    noise_share_spec(value, min, max) + distance_share_spec(dr, dc, radius)
}

pub fn batch_chance(value: i64, min: i64, max: i64, dr: i64, dc: i64, radius: usize) -> (n: u32)
    requires
        min <= value <= max,
        1 <= radius <= MAX_WORLD_SIZE,
        dr * dr + dc * dc <= radius * radius,
    ensures
        n == batch_chance_spec(
            value as int,
            min as int,
            max as int,
            dr as int,
            dc as int,
            radius as int,
        ),
        n <= 2 * UNIT,
{
    let noise: u64 = if min < max {
        let above: i128 = value as i128 - min as i128;
        let span: i128 = max as i128 - min as i128;
        assert(0 <= above * 1_000_000 <= span * 1_000_000) by (nonlinear_arith)
            requires
                0 <= above <= span,
        ;
        let scaled: i128 = above * 1_000_000;
        let part: i128 = scaled / span;
        assert(0 <= part <= 1_000_000) by (nonlinear_arith)
            requires
                0 <= scaled <= span * 1_000_000,
                0 < span,
                part == scaled / span,
        ;
        part as u64
    } else {
        0
    };
    let reach: i128 = radius as i128;
    assert(0 <= reach * reach <= 32768 * 32768) by (nonlinear_arith)
        requires
            0 <= reach <= 32768,
    ;
    assert(dr * dr >= 0 && dc * dc >= 0) by (nonlinear_arith);
    assert(-32768 <= dr <= 32768 && -32768 <= dc <= 32768) by (nonlinear_arith)
        requires
            dr * dr + dc * dc <= reach * reach,
            reach * reach <= 32768 * 32768,
            dr * dr >= 0,
            dc * dc >= 0,
    {
        if dr > 32768 {
            assert(dr * dr > 32768 * 32768);
        }
        if dr < -32768 {
            assert(dr * dr > 32768 * 32768);
        }
        if dc > 32768 {
            assert(dc * dc > 32768 * 32768);
        }
        if dc < -32768 {
            assert(dc * dc > 32768 * 32768);
        }
    }
    let far: i128 = (dr as i128) * (dr as i128) + (dc as i128) * (dc as i128);
    let scaled: i128 = far * 1_000_000_000_000;
    let root: u64 = isqrt(scaled as u128);
    assert(root <= reach * 1_000_000) by (nonlinear_arith)
        requires
            root >= 0,
            reach >= 0,
            root * root <= scaled,
            scaled == far * 1_000_000_000_000,
            far <= reach * reach,
    {
        if root > reach * 1_000_000 {
            assert(root * root > (reach * 1_000_000) * (reach * 1_000_000));
            assert((reach * 1_000_000) * (reach * 1_000_000) == reach * reach
                * 1_000_000_000_000);
        }
    }
    let distance: u64 = root / (radius as u64);
    assert(distance <= 1_000_000) by (nonlinear_arith)
        requires
            distance == root / (radius as u64),
            root <= reach * 1_000_000,
            reach == radius,
            reach >= 1,
    ;
    (noise + distance) as u32
}

/// The part of `holders` cells that a share of `percentage` millionths
/// comes to, divided by the room that a batch of radius `radius` takes:
/// 3.14 times the squared radius, and 12 cells on top. This is the limit on
/// the number of batches.
pub open spec fn batch_limit_spec(holders: int, percentage: int, radius: int) -> int {
    if holders <= 0 || percentage <= 0 {
        0
    } else {
        holders * percentage * 100 / ((UNIT as int) * (314 * radius * radius + 1200))
    }
}

pub fn batch_limit(holders: usize, percentage: i64, radius: usize) -> (n: usize)
    requires
        holders <= MAX_WORLD_SIZE * MAX_WORLD_SIZE,
        percentage <= UNIT,
        radius >= 1,
    ensures
        n == batch_limit_spec(holders as int, percentage as int, radius as int),
        n <= holders,
{
    if holders == 0 || percentage <= 0 {
        return 0;
    }
    assert(holders * percentage * 100 <= 1_073_741_824 * 1_000_000 * 100) by (nonlinear_arith)
        requires
            0 <= holders <= 1_073_741_824,
            0 <= percentage <= 1_000_000,
    ;
    assert(0 <= holders * percentage <= 1_073_741_824 * 1_000_000) by (nonlinear_arith)
        requires
            0 <= holders <= 1_073_741_824,
            0 <= percentage <= 1_000_000,
    ;
    let above: u128 = (holders as u128) * (percentage as u128) * 100;
    if radius > 0x10_0000 {
        proof {
            let below = (UNIT as int) * (314 * radius * radius + 1200);
            assert(below > above) by (nonlinear_arith)
                requires
                    below == 1_000_000 * (314 * radius * radius + 1200),
                    radius > 0x10_0000,
                    above <= 1_073_741_824 * 1_000_000 * 100,
            ;
            assert(above as int / below == 0) by (nonlinear_arith)
                requires
                    0 <= above < below,
            ;
        }
        return 0;
    }
    let reach: u128 = radius as u128;
    assert(reach * reach <= 0x10_0000 * 0x10_0000) by (nonlinear_arith)
        requires
            0 <= reach <= 0x10_0000,
    ;
    let room: u128 = 314 * (reach * reach) + 1200;
    let below: u128 = 1_000_000 * room;
    assert(below == (UNIT as int) * (314 * radius * radius + 1200)) by (nonlinear_arith)
        requires
            below == 1_000_000 * room,
            room == 314 * (reach * reach) + 1200,
            reach == radius,
    ;
    let n: u128 = above / below;
    assert(n <= holders) by (nonlinear_arith)
        requires
            n == above / below,
            above == holders * percentage * 100,
            below >= 1_000_000 * 1200,
            0 <= percentage <= 1_000_000,
            0 <= holders,
    {
        assert(above <= holders * 100_000_000);
        assert(holders * below >= holders * 1_200_000_000);
    }
    n as usize
}

/// The offset `(dr, dc)` from the center of a batch of radius `radius` lies
/// in the batch: within the radius, and on the field, which reaches one
/// cell less far forward than back.
pub open spec fn in_batch(radius: int, dr: int, dc: int) -> bool {
    -radius <= dr < radius && -radius <= dc < radius && dr * dr + dc * dc <= radius * radius
}

/// The chance, out of two million, of the cell at the offset `(dr, dc)`
/// from the center of a batch of radius `radius` that `field` leads.
pub open spec fn odds_at(field: HeightMap, radius: int, dr: int, dc: int) -> int {
    batch_chance_spec(
        field.heights[dr + radius][dc + radius] as int,
        field.min as int,
        field.max as int,
        dr,
        dc,
        radius,
    )
}

/// What has come of the cell at the offset `(dr, dc)` of a batch once the
/// cells before the row `i`, and in it before the column `j`, of its field
/// have had their turn: a cell that has had its turn is as a stamp leaves
/// it if its chance was two in two, and as it was if it had no chance; a
/// cell still to come is as it was.
pub open spec fn batch_cell(
    content: Content,
    field: HeightMap,
    radius: int,
    dr: int,
    dc: int,
    i: int,
    j: int,
    before: Tile,
    now: Tile,
) -> bool {
    if dr + radius < i || (dr + radius == i && dc + radius < j) {
        &&& odds_at(field, radius, dr, dc) == 2_000_000 ==> stamped(placing(content), before, now)
        &&& odds_at(field, radius, dr, dc) == 0 ==> now == before
    } else {
        now == before
    }
}

/// Between `before` and `now` one batch of `content` of radius `radius` was
/// placed around the cell at `(row, col)`, led by `field`: every cell is as
/// it was or as a stamp of the content leaves it; the cells out of the
/// batch are as they were, and so are those with no chance; those with a
/// chance of two in two are as a stamp leaves them.
pub open spec fn batch_placed(
    content: Content,
    field: HeightMap,
    radius: int,
    row: int,
    col: int,
    before: Vec<Vec<Tile>>,
    now: Vec<Vec<Tile>>,
    size: int,
) -> bool {
    &&& stamps_only(placing(content), before, now, size)
    &&& forall|r: int, c: int|
        #![trigger now[r][c]]
        inside(size, r, c) && !in_batch(radius, r - row, c - col) ==> now[r][c] == before[r][c]
    &&& forall|r: int, c: int|
        #![trigger now[r][c]]
        inside(size, r, c) && in_batch(radius, r - row, c - col) ==> batch_cell(
            content,
            field,
            radius,
            r - row,
            c - col,
            2 * radius,
            0,
            before[r][c],
            now[r][c],
        )
}

impl TileMat {
    /// Places one batch of `content` around the cell at `(row, col)`, led
    /// by `field`, a field of heights whose side is twice `radius`. Each
    /// cell of the field within `radius` of its middle stands for the cell
    /// of the grid at the same offset from `(row, col)`; where that lies on
    /// the grid, it gets the content with the chance that `batch_chance`
    /// gives, if it can hold it, with an amount drawn below the greatest of
    /// the content's kind.
    ///
    /// Every cell is left as it was or as a stamp of the content leaves it;
    /// the cells out of the batch are left as they were, and so are those
    /// with no chance; those with a chance of two in two are as a stamp
    /// leaves them.
    pub fn spawn_batch(
        &mut self,
        content: &Content,
        radius: usize,
        row: usize,
        col: usize,
        field: &HeightMap,
        rng: &mut StdRng,
    )
        requires
            old(self).wf(),
            field.wf(),
            radius >= 1,
            field.size == 2 * radius,
            row < old(self).size,
            col < old(self).size,
        ensures
            final(self).wf(),
            final(self).size == old(self).size,
            final(self).seed == old(self).seed,
            final(self).with_info == old(self).with_info,
            stamps_only(placing(*content), old(self).map, final(self).map, old(self).size as int),
            forall|r: int, c: int|
                #![trigger final(self).map[r][c]]
                inside(old(self).size as int, r, c) && !in_batch(radius as int, r - row, c - col)
                    ==> final(self).map[r][c] == old(self).map[r][c],
            forall|r: int, c: int|
                #![trigger final(self).map[r][c]]
                inside(old(self).size as int, r, c) && in_batch(radius as int, r - row, c - col)
                    ==> batch_cell(
                    *content,
                    *field,
                    radius as int,
                    r - row,
                    c - col,
                    2 * radius,
                    0,
                    old(self).map[r][c],
                    final(self).map[r][c],
                ),
            batch_placed(
                *content,
                *field,
                radius as int,
                row as int,
                col as int,
                old(self).map,
                final(self).map,
                old(self).size as int,
            ),
    {
        let size: usize = self.size;
        let side: usize = field.size;
        let ghost origin = self.map;
        let target: Target = (Some(*content), None);
        let reach: i64 = radius as i64;
        assert(0 <= reach * reach <= 32768 * 32768) by (nonlinear_arith)
            requires
                0 <= reach <= 32768,
        ;
        let disk: i64 = reach * reach;
        let mut i: usize = 0;
        while i < side
            invariant
                self.wf(),
                field.wf(),
                size == self.size == old(self).size,
                self.seed == old(self).seed,
                self.with_info == old(self).with_info,
                side == field.size == 2 * radius,
                reach == radius,
                disk == reach * reach,
                1 <= radius,
                row < size,
                col < size,
                target == placing(*content),
                stamps_only(placing(*content), origin, self.map, size as int),
                forall|r: int, c: int|
                    #![trigger self.map[r][c]]
                    inside(size as int, r, c) && !in_batch(radius as int, r - row, c - col)
                        ==> self.map[r][c] == origin[r][c],
                forall|r: int, c: int|
                    #![trigger self.map[r][c]]
                    inside(size as int, r, c) && in_batch(radius as int, r - row, c - col)
                        ==> batch_cell(
                        *content,
                        *field,
                        radius as int,
                        r - row,
                        c - col,
                        i as int,
                        0,
                        origin[r][c],
                        self.map[r][c],
                    ),
            decreases side - i,
        {
            let mut j: usize = 0;
            while j < side
                invariant
                    self.wf(),
                    field.wf(),
                    size == self.size == old(self).size,
                    self.seed == old(self).seed,
                    self.with_info == old(self).with_info,
                    side == field.size == 2 * radius,
                    reach == radius,
                    disk == reach * reach,
                    1 <= radius,
                    i < side,
                    row < size,
                    col < size,
                    target == placing(*content),
                    stamps_only(placing(*content), origin, self.map, size as int),
                    forall|r: int, c: int|
                        #![trigger self.map[r][c]]
                        inside(size as int, r, c) && !in_batch(radius as int, r - row, c - col)
                            ==> self.map[r][c] == origin[r][c],
                    forall|r: int, c: int|
                        #![trigger self.map[r][c]]
                        inside(size as int, r, c) && in_batch(radius as int, r - row, c - col)
                            ==> batch_cell(
                            *content,
                            *field,
                            radius as int,
                            r - row,
                            c - col,
                            i as int,
                            j as int,
                            origin[r][c],
                            self.map[r][c],
                        ),
                decreases side - j,
            {
                let dr: i64 = i as i64 - reach;
                let dc: i64 = j as i64 - reach;
                assert(0 <= dr * dr <= 32768 * 32768 && 0 <= dc * dc <= 32768 * 32768)
                    by (nonlinear_arith)
                    requires
                        -32768 <= dr <= 32768,
                        -32768 <= dc <= 32768,
                ;
                let far: i64 = dr * dr + dc * dc;
                let tr: i64 = row as i64 + dr;
                let tc: i64 = col as i64 + dc;
                if far <= disk && 0 <= tr && tr < size as i64 && 0 <= tc && tc
                    < size as i64 {
                    let odds: u32 = batch_chance(
                        field.heights[i][j],
                        field.min,
                        field.max,
                        dr,
                        dc,
                        radius,
                    );
                    if chance(rng, odds, 2_000_000) {
                        let ghost before = self.map;
                        stamp(&mut self.map, rng, tr as usize, tc as usize, &target);
                        proof {
                            assert forall|r: int, c: int| inside(size as int, r, c) implies (
                            #[trigger] self.map[r][c]) == before[r][c] || stamped(
                                placing(*content),
                                before[r][c],
                                self.map[r][c],
                            ) by {}
                            lemma_stamps_chain(
                                placing(*content),
                                origin,
                                before,
                                self.map,
                                size as int,
                            );
                        }
                    }
                }
                j += 1;
            }
            i += 1;
        }
    }
}

} // verus!
